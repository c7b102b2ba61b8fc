//! Text helpers of the file manager: times, counts, sizes, permissions and
//! the renaming of put items that would collide with existing names.
use vstd::prelude::*;
use unicode_width::{UnicodeWidthChar, UnicodeWidthStr};
use crate::digits::{decimal, octal, push_char, push_decimal, push_octal, push_str, lemma_decimal_injective, lemma_decimal_len};

verus! {

/// Width of the process indicator (`[»»---]`) printed while putting or deleting.
pub const PROCESS_INDICATOR_LENGTH: u16 = 7;
pub const KB: u64 = 1000;
pub const MB: u64 = 1_000_000;
pub const GB: u64 = 1_000_000_000;

/// Whether a timestamp can be cut as `format_time` cuts it: its UTF-8 encoding
/// is at least 16 bytes long and bytes 10, 11 and 16 each begin a character (or
/// end the text).
pub open spec fn time_cuttable(t: Seq<char>) -> bool {
    let b = vstd::utf8::encode_utf8(t);
    &&& b.len() >= 16
    &&& vstd::utf8::is_char_boundary(b, 10)
    &&& vstd::utf8::is_char_boundary(b, 11)
    &&& vstd::utf8::is_char_boundary(b, 16)
}

/// The characters encoded by bytes `i` to `j` of the UTF-8 encoding of `t`.
pub open spec fn byte_slice(t: Seq<char>, i: int, j: int) -> Seq<char> {
    vstd::utf8::decode_utf8(vstd::utf8::encode_utf8(t).subrange(i, j))
}

/// What `format_time` makes of an RFC 3339 timestamp: its date (bytes 0 to 10),
/// a space, and its hours and minutes (bytes 11 to 16).
pub open spec fn spec_format_time(time: Option<Seq<char>>) -> Seq<char> {
    match time {
        Some(t) => byte_slice(t, 0, 10) + seq![' '] + byte_slice(t, 11, 16),
        None => Seq::empty(),
    }
}

/// A character boundary of valid UTF-8 that lies before another boundary `j`
/// is also a boundary of the first `j` bytes.
proof fn lemma_boundary_in_prefix(b: Seq<u8>, i: int, j: int)
    requires
        vstd::utf8::valid_utf8(b),
        0 <= i <= j <= b.len(),
        vstd::utf8::is_char_boundary(b, i),
        vstd::utf8::is_char_boundary(b, j),
    ensures
        vstd::utf8::valid_utf8(b.subrange(0, j)),
        vstd::utf8::is_char_boundary(b.subrange(0, j), i),
{
    vstd::utf8::valid_utf8_split(b, j);
    let p = b.subrange(0, j);
    if i == j {
        vstd::utf8::is_char_boundary_start_end_of_seq(p);
    } else if i > 0 {
        vstd::utf8::is_char_boundary_iff_not_is_continuation_byte(b, i);
        vstd::utf8::is_char_boundary_iff_not_is_continuation_byte(p, i);
        assert(p[i] == b[i]);
    }
}

/// Generate modified time as `String`.
pub fn format_time(time: &Option<String>) -> (r: String)
    requires
        time matches Some(t) ==> time_cuttable(t@),
    ensures
        r@ == spec_format_time(match time {
            Some(t) => Some(t@),
            None => None,
        }),
{
    match time {
        Some(datetime) => {
            let s = datetime.as_str();
            let ghost b = vstd::utf8::encode_utf8(datetime@);
            proof {
                vstd::utf8::encode_utf8_valid_utf8(datetime@);
                lemma_boundary_in_prefix(b, 11, 16);
            }
            let (first16, _) = s.split_at(16);
            let (date, _) = s.split_at(10);
            let (_, clock) = first16.split_at(11);
            proof {
                assert(vstd::utf8::encode_utf8(first16@) =~= b.subrange(0, 16));
                assert(vstd::utf8::encode_utf8(clock@) =~= b.subrange(11, 16));
                vstd::utf8::encode_utf8_decode_utf8(date@);
                vstd::utf8::encode_utf8_decode_utf8(clock@);
            }
            let mut r = String::new();
            push_str(&mut r, date);
            push_char(&mut r, ' ');
            push_str(&mut r, clock);
            proof {
                assert(r@ =~= date@ + seq![' '] + clock@);
            }
            r
        },
        None => String::new(),
    }
}

/// The counter of a running process: `i + 1`, a slash, and `all`.
pub open spec fn spec_display_count(i: nat, all: nat) -> Seq<char> {
    decimal(i + 1) + seq!['/'] + decimal(all)
}

/// Print the number of process (put/delete).
pub fn display_count(i: usize, all: usize) -> (r: String)
    requires
        i < usize::MAX,
    ensures
        r@ == spec_display_count(i as nat, all as nat),
{
    let mut result = String::new();
    push_decimal(&mut result, (i + 1) as u64);
    push_char(&mut result, '/');
    push_decimal(&mut result, all as u64);
    proof {
        assert(result@ =~= spec_display_count(i as nat, all as nat));
    }
    result
}

/// The size of an item in whole units: bytes below a kilobyte, then kilobytes,
/// megabytes and gigabytes (all decimal, rounded down).
pub open spec fn spec_proper_size(byte: nat) -> Seq<char> {
    if byte < KB {
        decimal(byte) + seq!['B']
    } else if byte < MB {
        decimal(byte / KB as nat) + seq!['K', 'B']
    } else if byte < GB {
        decimal(byte / MB as nat) + seq!['M', 'B']
    } else {
        decimal(byte / GB as nat) + seq!['G', 'B']
    }
}

/// Get the size format of item.
pub fn to_proper_size(byte: u64) -> (r: String)
    ensures
        r@ == spec_proper_size(byte as nat),
{
    let mut result = String::new();
    if byte < KB {
        push_decimal(&mut result, byte);
        push_char(&mut result, 'B');
    } else if byte < MB {
        push_decimal(&mut result, byte / KB);
        push_char(&mut result, 'K');
        push_char(&mut result, 'B');
    } else if byte < GB {
        push_decimal(&mut result, byte / MB);
        push_char(&mut result, 'M');
        push_char(&mut result, 'B');
    } else {
        push_decimal(&mut result, byte / GB);
        push_char(&mut result, 'G');
        push_char(&mut result, 'B');
    }
    proof {
        assert(result@ =~= spec_proper_size(byte as nat));
    }
    result
}

/// The last three octal digits of a mode (all of them when there are fewer).
pub open spec fn spec_permissions(mode: nat) -> Seq<char> {
    let o = octal(mode);
    if o.len() <= 3 {
        o
    } else {
        o.subrange(o.len() - 3, o.len() as int)
    }
}

/// linux-specific: Convert u32 to permission-ish string.
pub fn convert_to_permissions(permissions: u32) -> (r: String)
    ensures
        r@ == spec_permissions(permissions as nat),
{
    let mut all = String::new();
    push_octal(&mut all, permissions as u64);
    proof {
        assert(all@ =~= octal(permissions as nat));
    }
    let s = all.as_str();
    let len = s.unicode_len();
    if len <= 3 {
        all
    } else {
        let mut r = String::new();
        push_str(&mut r, s.substring_char(len - 3, len));
        proof {
            assert(r@ =~= spec_permissions(permissions as nat));
        }
        r
    }
}

/// Whether one of `names` is `s`.
pub open spec fn names_contain(names: Seq<String>, s: Seq<char>) -> bool {
    exists|i: int| 0 <= i < names.len() && (#[trigger] names[i])@ == s
}

/// Whether one of `names` equals `s`.
pub fn contains_name(names: &[String], s: &String) -> (b: bool)
    ensures
        b == names_contain(names@, s@),
{
    let mut i: usize = 0;
    while i < names.len()
        invariant
            i <= names@.len(),
            forall|j: int| 0 <= j < i ==> (#[trigger] names@[j])@ != s@,
        decreases names@.len() - i,
    {
        if names[i] == *s {
            return true;
        }
        i = i + 1;
    }
    false
}

/// If `a` is a prefix and `b` the rest of `s` after a middle part, the middle part is determined.
proof fn lemma_middle_eq(p: Seq<char>, a: Seq<char>, b: Seq<char>, q: Seq<char>)
    requires
        p + a + q == p + b + q,
    ensures
        a == b,
{
    assert((p + a + q).len() == (p + b + q).len());
    assert((p + a).len() == p.len() + a.len());
    assert((p + b).len() == p.len() + b.len());
    assert((p + a + q).len() == (p + a).len() + q.len());
    assert((p + b + q).len() == (p + b).len() + q.len());
    assert(a.len() == b.len());
    assert(a =~= (p + a + q).subrange(p.len() as int, (p.len() + a.len()) as int));
    assert(b =~= (p + b + q).subrange(p.len() as int, (p.len() + b.len()) as int));
    assert(a =~= b);
}

/// Distinct strings that all occur among `names` are no more than `names`.
proof fn lemma_distinct_members_bound(c: Seq<Seq<char>>, names: Seq<String>)
    requires
        c.no_duplicates(),
        forall|i: int| 0 <= i < c.len() ==> names_contain(names, #[trigger] c[i]),
    ensures
        c.len() <= names.len(),
{
    let views = names.map_values(|s: String| s@);
    assert forall|x: Seq<char>| c.to_set().contains(x) implies views.to_set().contains(x) by {
        let i = choose|i: int| 0 <= i < c.len() && c[i] == x;
        assert(names_contain(names, c[i]));
        let j = choose|j: int| 0 <= j < names.len() && (#[trigger] names[j])@ == c[i];
        assert(views[j] == x);
    }
    c.unique_seq_to_set();
    views.lemma_cardinality_of_set();
    vstd::seq_lib::seq_to_set_is_finite(views);
    vstd::set_lib::lemma_len_subset(c.to_set(), views.to_set());
}

/// The `k`-th name tried for a put directory: its own name, then `name_1`, `name_2`, ...
pub open spec fn dir_candidate(name: Seq<char>, k: nat) -> Seq<char> {
    if k == 0 {
        name
    } else {
        name + seq!['_'] + decimal(k)
    }
}

proof fn lemma_dir_candidate_injective(name: Seq<char>, i: nat, j: nat)
    requires
        dir_candidate(name, i) == dir_candidate(name, j),
    ensures
        i == j,
{
    lemma_decimal_len(i);
    lemma_decimal_len(j);
    if i > 0 && j > 0 {
        let p = name + seq!['_'];
        assert(dir_candidate(name, i) =~= p + decimal(i) + Seq::<char>::empty());
        assert(dir_candidate(name, j) =~= p + decimal(j) + Seq::<char>::empty());
        lemma_middle_eq(p, decimal(i), decimal(j), Seq::<char>::empty());
        lemma_decimal_injective(i, j);
    } else if i > 0 || j > 0 {
        assert(dir_candidate(name, i).len() != dir_candidate(name, j).len());
    }
}

/// The name that `rename_dir` gives: the first candidate not among `names`.
pub open spec fn is_first_free(
    names: Seq<String>,
    cand: spec_fn(nat) -> Seq<char>,
    r: Seq<char>,
) -> bool {
    exists|k: nat|
        {
            &&& r == #[trigger] cand(k)
            &&& !names_contain(names, r)
            &&& forall|j: nat| j < k ==> names_contain(names, #[trigger] cand(j))
        }
}

/// Rename the put directory, in order to avoid the name conflict.
pub fn rename_dir(dir_name: &str, name_set: &[String]) -> (r: String)
    requires
        name_set@.len() < usize::MAX,
    ensures
        is_first_free(name_set@, |k: nat| dir_candidate(dir_name@, k), r@),
{
    let ghost cand = |k: nat| dir_candidate(dir_name@, k);
    let mut count: usize = 1;
    let mut new_name = String::from_str(dir_name);
    while contains_name(name_set, &new_name)
        invariant
            1 <= count <= name_set@.len() + 1,
            name_set@.len() < usize::MAX,
            cand == (|k: nat| dir_candidate(dir_name@, k)),
            new_name@ == cand((count - 1) as nat),
            forall|j: nat| j < count - 1 ==> names_contain(name_set@, #[trigger] cand(j)),
        decreases name_set@.len() + 1 - count,
    {
        proof {
            let c = Seq::new(count as nat, |j: int| cand(j as nat));
            assert forall|a: int, b: int| 0 <= a < c.len() && 0 <= b < c.len() && a != b
                implies c[a] != c[b] by {
                if c[a] == c[b] {
                    lemma_dir_candidate_injective(dir_name@, a as nat, b as nat);
                }
            }
            assert forall|i: int| 0 <= i < c.len() implies names_contain(name_set@, #[trigger] c[i]) by {
                if i < count - 1 {
                    assert(names_contain(name_set@, cand(i as nat)));
                }
            }
            lemma_distinct_members_bound(c, name_set@);
        }
        let mut rename = String::from_str(dir_name);
        push_char(&mut rename, '_');
        push_decimal(&mut rename, count as u64);
        proof {
            assert(rename@ =~= cand(count as nat));
        }
        new_name = rename;
        count = count + 1;
    }
    proof {
        assert(is_first_free(name_set@, cand, new_name@)) by {
            let k = (count - 1) as nat;
            assert(new_name@ == cand(k));
        }
    }
    new_name
}

/// Index of the last `.` in `s`, or -1 when there is none.
pub open spec fn last_dot(s: Seq<char>) -> int
    decreases s.len(),
{
    if s.len() == 0 {
        -1
    } else if s.last() == '.' {
        s.len() - 1
    } else {
        last_dot(s.drop_last())
    }
}

/// Stem and extension of a file name: split at the last dot, unless that dot is
/// the first character (a hidden file) or there is none.
pub open spec fn split_stem(name: Seq<char>) -> (Seq<char>, Option<Seq<char>>) {
    let k = last_dot(name);
    if k <= 0 {
        (name, None)
    } else {
        (name.subrange(0, k), Some(name.subrange(k + 1, name.len() as int)))
    }
}

/// A name that a directory entry can have: not empty, not `.` or `..`, and without `/`.
pub open spec fn is_plain_file_name(s: Seq<char>) -> bool {
    &&& s.len() > 0
    &&& s != seq!['.']
    &&& s != seq!['.', '.']
    &&& forall|i: int| 0 <= i < s.len() ==> s[i] != '/'
}

/// The `k`-th name tried for a put file: its own name, then `stem_1.ext`, `stem_2.ext`, ...
pub open spec fn file_candidate(name: Seq<char>, k: nat) -> Seq<char> {
    if k == 0 {
        name
    } else {
        match split_stem(name) {
            (stem, Some(ext)) => stem + seq!['_'] + decimal(k) + (seq!['.'] + ext),
            (stem, None) => stem + seq!['_'] + decimal(k),
        }
    }
}

proof fn lemma_last_dot(s: Seq<char>)
    ensures
        -1 <= last_dot(s) < s.len(),
        last_dot(s) >= 0 ==> s[last_dot(s)] == '.',
        forall|i: int| last_dot(s) < i < s.len() ==> s[i] != '.',
    decreases s.len(),
{
    if s.len() > 0 && s.last() != '.' {
        lemma_last_dot(s.drop_last());
        assert forall|i: int| last_dot(s) < i < s.len() implies s[i] != '.' by {
            if i < s.len() - 1 {
                assert(s[i] == s.drop_last()[i]);
            }
        }
    }
}

proof fn lemma_split_stem(name: Seq<char>)
    ensures
        split_stem(name) matches (stem, Some(ext)) ==> name == stem + (seq!['.'] + ext),
        split_stem(name) matches (stem, None) ==> name == stem,
{
    lemma_last_dot(name);
    let k = last_dot(name);
    if k > 0 {
        assert(name =~= name.subrange(0, k) + (seq!['.'] + name.subrange(k + 1, name.len() as int)));
    }
}

proof fn lemma_file_candidate_injective(name: Seq<char>, i: nat, j: nat)
    requires
        file_candidate(name, i) == file_candidate(name, j),
    ensures
        i == j,
{
    lemma_decimal_len(i);
    lemma_decimal_len(j);
    lemma_split_stem(name);
    let (stem, ext) = split_stem(name);
    let p = stem + seq!['_'];
    let q = match ext {
        Some(e) => seq!['.'] + e,
        None => Seq::<char>::empty(),
    };
    assert(name.len() == stem.len() + q.len());
    if i > 0 {
        assert(file_candidate(name, i) =~= p + decimal(i) + q);
    }
    if j > 0 {
        assert(file_candidate(name, j) =~= p + decimal(j) + q);
    }
    if i > 0 && j > 0 {
        lemma_middle_eq(p, decimal(i), decimal(j), q);
        lemma_decimal_injective(i, j);
    } else if i > 0 || j > 0 {
        assert(file_candidate(name, i).len() != file_candidate(name, j).len());
    }
}

/// Index of the last `.` in `s`, or -1.
fn find_last_dot(s: &str) -> (k: i64)
    requires
        s@.len() < i64::MAX,
    ensures
        k == last_dot(s@),
{
    let len = s.unicode_len();
    let mut i: usize = len;
    proof {
        lemma_last_dot(s@);
    }
    while i > 0
        invariant
            i <= len == s@.len() < i64::MAX,
            last_dot(s@) < i as int,
            -1 <= last_dot(s@) < s@.len(),
            last_dot(s@) >= 0 ==> s@[last_dot(s@)] == '.',
            forall|j: int| last_dot(s@) < j < s@.len() ==> s@[j] != '.',
        decreases i,
    {
        if s.get_char(i - 1) == '.' {
            return (i - 1) as i64;
        }
        i = i - 1;
    }
    -1
}

/// Rename the put file, in order to avoid the name conflict.
pub fn rename_file(file_name: &str, name_set: &[String]) -> (r: String)
    requires
        is_plain_file_name(file_name@),
        file_name@.len() < i64::MAX,
        name_set@.len() < usize::MAX,
    ensures
        is_first_free(name_set@, |k: nat| file_candidate(file_name@, k), r@),
{
    let ghost cand = |k: nat| file_candidate(file_name@, k);
    let k = find_last_dot(file_name);
    let len = file_name.unicode_len();
    proof {
        lemma_last_dot(file_name@);
    }
    let stem: &str = if k <= 0 {
        file_name
    } else {
        file_name.substring_char(0, k as usize)
    };
    let extension: Option<&str> = if k <= 0 {
        None
    } else {
        Some(file_name.substring_char((k + 1) as usize, len))
    };
    proof {
        lemma_last_dot(file_name@);
        assert(split_stem(file_name@).0 == stem@);
    }
    let mut count: usize = 1;
    let mut new_name = String::from_str(file_name);
    while contains_name(name_set, &new_name)
        invariant
            1 <= count <= name_set@.len() + 1,
            name_set@.len() < usize::MAX,
            cand == (|k: nat| file_candidate(file_name@, k)),
            split_stem(file_name@).0 == stem@,
            match extension {
                Some(e) => split_stem(file_name@).1 == Some(e@),
                None => split_stem(file_name@).1 is None,
            },
            new_name@ == cand((count - 1) as nat),
            forall|j: nat| j < count - 1 ==> names_contain(name_set@, #[trigger] cand(j)),
        decreases name_set@.len() + 1 - count,
    {
        proof {
            let c = Seq::new(count as nat, |j: int| cand(j as nat));
            assert forall|a: int, b: int| 0 <= a < c.len() && 0 <= b < c.len() && a != b
                implies c[a] != c[b] by {
                if c[a] == c[b] {
                    lemma_file_candidate_injective(file_name@, a as nat, b as nat);
                }
            }
            assert forall|i: int| 0 <= i < c.len() implies names_contain(name_set@, #[trigger] c[i]) by {
                if i < count - 1 {
                    assert(names_contain(name_set@, cand(i as nat)));
                }
            }
            lemma_distinct_members_bound(c, name_set@);
        }
        let mut rename = String::from_str(stem);
        push_char(&mut rename, '_');
        push_decimal(&mut rename, count as u64);
        if let Some(ext) = extension {
            push_char(&mut rename, '.');
            push_str(&mut rename, ext);
        }
        proof {
            assert(rename@ =~= cand(count as nat));
        }
        new_name = rename;
        count = count + 1;
    }
    proof {
        assert(is_first_free(name_set@, cand, new_name@)) by {
            let k = (count - 1) as nat;
            assert(new_name@ == cand(k));
        }
    }
    new_name
}

/// The display width in columns that `unicode_width` gives a character: `None`
/// for a control character.
pub uninterp spec fn char_width(c: char) -> Option<usize>;

/// The display width in columns that `unicode_width` gives a string (not always
/// the sum of its characters' widths: ligatures and emoji sequences differ).
pub uninterp spec fn str_width(s: Seq<char>) -> usize;

/// `UnicodeWidthChar::width`: `None` exactly for the control characters
/// U+0000..U+001F and U+007F..U+009F, 1 for the printable ASCII characters, and
/// otherwise the width from the crate's tables, which is left unnamed here.
#[verifier::external_body]
pub(crate) fn width_of_char(c: char) -> (w: Option<usize>)
    ensures
        w == char_width(c),
        w is None <==> ((c as u32) < 0x20 || (0x7f <= (c as u32) && (c as u32) < 0xa0)),
        (0x20 <= (c as u32) && (c as u32) < 0x7f) ==> w == Some(1usize),
{
    UnicodeWidthChar::width(c)
}

/// `UnicodeWidthStr::width`: the width of the whole string, computed by the
/// crate's own rules (which are not restated here).
#[verifier::external_body]
fn width_of_str(s: &str) -> (w: usize)
    ensures
        w == str_width(s@),
{
    UnicodeWidthStr::width(s)
}

/// Shortening `rest` onto `acc`: characters are taken while the width of what
/// was taken, plus the next character's width, stays within `i`; characters
/// without a width are skipped.
pub open spec fn shorten_from(acc: Seq<char>, rest: Seq<char>, i: nat) -> Seq<char>
    decreases rest.len(),
{
    if rest.len() == 0 {
        acc
    } else {
        match char_width(rest[0]) {
            Some(w) => if str_width(acc) + w > i {
                acc
            } else {
                shorten_from(acc.push(rest[0]), rest.drop_first(), i)
            },
            None => shorten_from(acc, rest.drop_first(), i),
        }
    }
}

/// Shorten &str to specific width. With unicode_width, even if the string includes wide chars, it's properly split, using full width of the terminal.
pub fn shorten_str_including_wide_char(s: &str, i: usize) -> (r: String)
    ensures
        r@ == shorten_from(Seq::empty(), s@, i as nat),
{
    let mut result = String::new();
    let len = s.unicode_len();
    let mut k: usize = 0;
    proof {
        assert(s@.skip(0) =~= s@);
    }
    while k < len
        invariant
            len == s@.len(),
            k <= len,
            shorten_from(Seq::empty(), s@, i as nat) == shorten_from(result@, s@.skip(k as int), i as nat),
        decreases len - k,
    {
        let c = s.get_char(k);
        proof {
            assert(s@.skip(k as int)[0] == c);
            assert(s@.skip(k as int).drop_first() =~= s@.skip(k + 1));
        }
        let result_length = width_of_str(result.as_str());
        if let Some(c_width) = width_of_char(c) {
            let too_wide = match result_length.checked_add(c_width) {
                Some(total) => total > i,
                None => true,
            };
            if too_wide {
                return result;
            }
            push_char(&mut result, c);
        }
        k = k + 1;
    }
    proof {
        assert(s@.skip(len as int).len() == 0);
    }
    result
}

/// Splitting `rest` into display lines of at most `width` columns: `lines` holds
/// the finished lines and `cur` the current one. A newline ends the current line;
/// a character that would make the current line (as it was before the newline
/// was seen) too wide starts a new one; characters without a width are dropped.
pub open spec fn split_from(
    lines: Seq<Seq<char>>,
    cur: Seq<char>,
    rest: Seq<char>,
    width: nat,
) -> Seq<Seq<char>>
    decreases rest.len(),
{
    if rest.len() == 0 {
        lines.push(cur)
    } else {
        let c = rest[0];
        let cur_len = str_width(cur);
        let lines1 = if c == '\n' { lines.push(cur) } else { lines };
        let cur1 = if c == '\n' { Seq::<char>::empty() } else { cur };
        match char_width(c) {
            Some(w) => if cur_len + w > width {
                split_from(lines1.push(cur1), seq![c], rest.drop_first(), width)
            } else {
                split_from(lines1, cur1.push(c), rest.drop_first(), width)
            },
            None => split_from(lines1, cur1, rest.drop_first(), width),
        }
    }
}

/// The views of a vector of strings.
pub open spec fn string_views(v: Seq<String>) -> Seq<Seq<char>> {
    v.map_values(|s: String| s@)
}

/// Split a text into lines that fit in `width` columns.
pub fn split_lines_including_wide_char(s: &str, width: usize) -> (r: Vec<String>)
    ensures
        string_views(r@) == split_from(Seq::empty(), Seq::empty(), s@, width as nat),
{
    let mut result: Vec<String> = Vec::new();
    let mut new_line = String::new();
    let len = s.unicode_len();
    let mut k: usize = 0;
    proof {
        assert(s@.skip(0) =~= s@);
        assert(string_views(result@) =~= Seq::<Seq<char>>::empty());
    }
    while k < len
        invariant
            len == s@.len(),
            k <= len,
            split_from(Seq::empty(), Seq::empty(), s@, width as nat) == split_from(
                string_views(result@),
                new_line@,
                s@.skip(k as int),
                width as nat,
            ),
        decreases len - k,
    {
        let c = s.get_char(k);
        proof {
            assert(s@.skip(k as int)[0] == c);
            assert(s@.skip(k as int).drop_first() =~= s@.skip(k + 1));
        }
        let new_line_length = width_of_str(new_line.as_str());
        if c == '\n' {
            let ghost before = string_views(result@);
            let ghost finished_view = new_line@;
            result.push(new_line);
            new_line = String::new();
            proof {
                assert(string_views(result@) =~= before.push(finished_view));
            }
        }
        if let Some(c_width) = width_of_char(c) {
            let too_wide = match new_line_length.checked_add(c_width) {
                Some(total) => total > width,
                None => true,
            };
            if too_wide {
                let ghost before = string_views(result@);
                let ghost finished_view = new_line@;
                result.push(new_line);
                new_line = String::new();
                proof {
                    assert(string_views(result@) =~= before.push(finished_view));
                }
                push_char(&mut new_line, c);
                proof {
                    assert(new_line@ =~= seq![c]);
                }
            } else {
                push_char(&mut new_line, c);
            }
        }
        k = k + 1;
    }
    let ghost before = string_views(result@);
    let ghost last_view = new_line@;
    result.push(new_line);
    proof {
        assert(s@.skip(len as int).len() == 0);
        assert(string_views(result@) =~= before.push(last_view));
    }
    result
}

/// The line that closes the help text.
pub open spec fn go_back_line() -> Seq<char> {
    "Press Enter to go back."@
}

/// Format texts to print. Used when printing help or text preview.
pub fn format_txt(txt: &str, width: u16, is_help: bool) -> (r: Vec<String>)
    ensures
        string_views(r@) == if is_help {
            split_from(Seq::empty(), Seq::empty(), txt@, width as nat).push(go_back_line())
        } else {
            split_from(Seq::empty(), Seq::empty(), txt@, width as nat)
        },
{
    let mut v = split_lines_including_wide_char(txt, width as usize);
    if is_help {
        let ghost before = string_views(v@);
        let line = String::from_str("Press Enter to go back.");
        v.push(line);
        proof {
            assert(string_views(v@) =~= before.push(line@));
        }
    }
    v
}

/// The order in which `natord::compare` (a stable sort that compares runs of
/// digits by their value) puts a list of names.
pub uninterp spec fn natural_order(names: Seq<Seq<char>>) -> Seq<Seq<char>>;

/// `slice::sort_by` with `natord::compare`: the names are permuted into the
/// order that `natural_order` names; which order that is, is not restated here.
/// Nor is it said that the result ascends under `natord::compare`: `sort_by`
/// promises that only for a comparator that is a total order, and natord's
/// mix of left- and right-aligned digit runs is not shown to be one.
#[verifier::external_body]
fn sort_natural(v: &mut Vec<String>)
    ensures
        string_views(final(v)@) == natural_order(string_views(old(v)@)),
        final(v)@.to_multiset() == old(v)@.to_multiset(),
{
    v.sort_by(|a, b| natord::compare(a, b));
}

/// The tree that previews a directory: one line `├ name` per entry, the last one
/// `└ name` shortened to the width and without a newline.
pub open spec fn tree_from(names: Seq<Seq<char>>, width: nat) -> Seq<char>
    decreases names.len(),
{
    if names.len() == 0 {
        Seq::empty()
    } else if names.len() == 1 {
        shorten_from(Seq::empty(), seq!['└', ' '] + names[0], width)
    } else {
        seq!['├', ' '] + names[0] + seq!['\n'] + tree_from(names.drop_first(), width)
    }
}

/// Generate the contents of the directory to preview: the directory names first,
/// then the file names, each group in natural order.
pub fn list_up_contents(dir_names: Vec<String>, file_names: Vec<String>, width: u16) -> (r: String)
    ensures
        r@ == tree_from(
            natural_order(string_views(dir_names@)) + natural_order(string_views(file_names@)),
            width as nat,
        ),
{
    let mut dir_v = dir_names;
    let mut file_v = file_names;
    sort_natural(&mut dir_v);
    sort_natural(&mut file_v);
    let ghost all = string_views(dir_v@) + string_views(file_v@);
    assert(all == natural_order(string_views(dir_names@)) + natural_order(string_views(file_names@)));
    let mut v: Vec<String> = Vec::new();
    let mut i: usize = 0;
    while i < dir_v.len()
        invariant
            i <= dir_v@.len(),
            string_views(v@) =~= string_views(dir_v@).take(i as int),
        decreases dir_v@.len() - i,
    {
        let ghost before = string_views(v@);
        let item = dir_v[i].clone();
        let ghost item_view = item@;
        v.push(item);
        proof {
            assert(string_views(v@) =~= before.push(item_view));
            assert(string_views(dir_v@).take(i + 1) =~= string_views(dir_v@).take(i as int).push(dir_v@[i as int]@));
        }
        i = i + 1;
    }
    let mut j: usize = 0;
    while j < file_v.len()
        invariant
            j <= file_v@.len(),
            string_views(v@) =~= string_views(dir_v@) + string_views(file_v@).take(j as int),
        decreases file_v@.len() - j,
    {
        let ghost before = string_views(v@);
        let item = file_v[j].clone();
        let ghost item_view = item@;
        v.push(item);
        proof {
            assert(string_views(v@) =~= before.push(item_view));
            assert(string_views(file_v@).take(j + 1) =~= string_views(file_v@).take(j as int).push(file_v@[j as int]@));
        }
        j = j + 1;
    }
    proof {
        assert(string_views(file_v@).take(file_v@.len() as int) =~= string_views(file_v@));
        assert(string_views(v@) =~= all);
    }
    let mut result = String::new();
    let len = v.len();
    let mut k: usize = 0;
    proof {
        assert(all.skip(0) =~= all);
        assert(result@ + tree_from(all, width as nat) =~= tree_from(all, width as nat));
    }
    while k < len
        invariant
            len == v@.len(),
            k <= len,
            string_views(v@) == all,
            all == natural_order(string_views(dir_names@)) + natural_order(string_views(file_names@)),
            result@ + tree_from(all.skip(k as int), width as nat) == tree_from(all, width as nat),
        decreases len - k,
    {
        proof {
            assert(all.skip(k as int)[0] == v@[k as int]@);
            assert(all.skip(k as int).drop_first() =~= all.skip(k + 1));
        }
        if k == len - 1 {
            let mut line = String::from_str("└ ");
            push_str(&mut line, v[k].as_str());
            let line = shorten_str_including_wide_char(line.as_str(), width as usize);
            let ghost before = result@;
            push_str(&mut result, line.as_str());
            proof {
                assert(all.skip(k as int).len() == 1);
                assert(seq!['└', ' '] =~= "└ "@) by {
                    reveal_strlit("└ ");
                }
                assert(result@ =~= before + tree_from(all.skip(k as int), width as nat));
                assert(result@ == tree_from(all, width as nat));
            }
            return result;
        } else {
            let ghost before = result@;
            let mut line = String::from_str("├ ");
            push_str(&mut line, v[k].as_str());
            push_char(&mut line, '\n');
            push_str(&mut result, line.as_str());
            proof {
                assert(seq!['├', ' '] =~= "├ "@) by {
                    reveal_strlit("├ ");
                }
                assert(all.skip(k as int).len() >= 2);
                assert(before + tree_from(all.skip(k as int), width as nat) =~= result@ + tree_from(all.skip(k + 1), width as nat));
            }
        }
        k = k + 1;
    }
    proof {
        assert(all.skip(k as int) =~= Seq::<Seq<char>>::empty());
        assert(result@ =~= result@ + tree_from(all.skip(k as int), width as nat));
    }
    result
}

/// Association list semantics: later entries override earlier ones.
pub open spec fn assoc_map(s: Seq<(Seq<char>, Seq<char>)>) -> Map<Seq<char>, Seq<char>>
    decreases s.len(),
{
    if s.len() == 0 {
        Map::empty()
    } else {
        assoc_map(s.drop_last()).insert(s.last().0, s.last().1)
    }
}

/// The lower case that `str::to_lowercase` gives a string (by the Unicode case mapping).
pub uninterp spec fn lowercase(s: Seq<char>) -> Seq<char>;

/// `str::to_lowercase`: the string mapped to lower case, as `lowercase` names it.
#[verifier::external_body]
fn to_lowercase(s: &str) -> (r: String)
    ensures
        r@ == lowercase(s@),
{
    s.to_lowercase()
}

/// Map from (lower-case) file extension to the command that opens it.
#[derive(Debug, Clone)]
pub struct ExtensionMap {
    /// Pairs of extension and command, in insertion order.
    pub entries: Vec<(String, String)>,
}

/// The views of extension/command pairs.
pub open spec fn pair_views(s: Seq<(String, String)>) -> Seq<(Seq<char>, Seq<char>)> {
    s.map_values(|p: (String, String)| (p.0@, p.1@))
}

impl View for ExtensionMap {
    type V = Map<Seq<char>, Seq<char>>;

    open spec fn view(&self) -> Map<Seq<char>, Seq<char>> {
        assoc_map(pair_views(self.entries@))
    }
}

proof fn lemma_assoc_map_skip_tail(s: Seq<(Seq<char>, Seq<char>)>, k: Seq<char>, i: int)
    requires
        0 <= i <= s.len(),
        forall|j: int| i <= j < s.len() ==> (#[trigger] s[j]).0 != k,
    ensures
        assoc_map(s).contains_key(k) == assoc_map(s.take(i)).contains_key(k),
        assoc_map(s).contains_key(k) ==> assoc_map(s)[k] == assoc_map(s.take(i))[k],
    decreases s.len() - i,
{
    if i < s.len() {
        assert(s.drop_last().take(i) =~= s.take(i));
        assert(s.last() == s[s.len() - 1]);
        lemma_assoc_map_skip_tail(s.drop_last(), k, i);
    } else {
        assert(s.take(i) =~= s);
    }
}

impl ExtensionMap {
    pub fn new() -> (m: Self)
        ensures
            m@ == Map::<Seq<char>, Seq<char>>::empty(),
            m.entries@.len() == 0,
    {
        let m = ExtensionMap { entries: Vec::new() };
        proof {
            assert(pair_views(m.entries@) =~= Seq::empty());
        }
        m
    }

    /// Bind `ext` to `command`, replacing an earlier binding.
    pub fn insert(&mut self, ext: String, command: String)
        ensures
            final(self)@ == old(self)@.insert(ext@, command@),
            pair_views(final(self).entries@) == pair_views(old(self).entries@).push((ext@, command@)),
    {
        let ghost before = pair_views(self.entries@);
        let ghost kv = (ext@, command@);
        self.entries.push((ext, command));
        proof {
            assert(pair_views(self.entries@) =~= before.push(kv));
            assert(pair_views(self.entries@).drop_last() =~= before);
        }
    }

    /// The command bound to `ext`.
    pub fn get(&self, ext: &str) -> (r: Option<String>)
        ensures
            match r {
                Some(c) => self@.contains_key(ext@) && self@[ext@] == c@,
                None => !self@.contains_key(ext@),
            },
    {
        let ghost s = pair_views(self.entries@);
        let target = String::from_str(ext);
        let mut i: usize = self.entries.len();
        while i > 0
            invariant
                i <= self.entries@.len(),
                s == pair_views(self.entries@),
                target@ == ext@,
                forall|j: int| i <= j < s.len() ==> (#[trigger] s[j]).0 != ext@,
            decreases i,
        {
            if self.entries[i - 1].0 == target {
                proof {
                    lemma_assoc_map_skip_tail(s, ext@, i as int);
                    assert(s.take(i as int).drop_last() =~= s.take(i - 1));
                    assert(s.take(i as int).last() == s[i - 1]);
                }
                return Some(self.entries[i - 1].1.clone());
            }
            i = i - 1;
        }
        proof {
            lemma_assoc_map_skip_tail(s, ext@, 0);
            assert(s.take(0) =~= Seq::<(Seq<char>, Seq<char>)>::empty());
        }
        None
    }
}

/// The extension/command pairs that the `exec` setting gives: for each command
/// in order, each of its extensions in lower case.
pub open spec fn exec_entries(config: Seq<(String, Vec<String>)>) -> Seq<(Seq<char>, Seq<char>)>
    decreases config.len(),
{
    if config.len() == 0 {
        Seq::empty()
    } else {
        exec_entries(config.drop_last()) + config.last().1@.map_values(
            |e: String| (lowercase(e@), config.last().0@),
        )
    }
}

/// Convert extension setting in the config to a map from extension to command.
/// The commands come in the order of their names, as a `BTreeMap` gives them.
pub fn to_extension_map(config: &Option<Vec<(String, Vec<String>)>>) -> (r: Option<ExtensionMap>)
    requires
        config matches Some(c) ==> crate::config::names_ascending(c@),
    ensures
        match config {
            None => r is None,
            Some(c) => r matches Some(m) && pair_views(m.entries@) == exec_entries(c@) && m@ == assoc_map(exec_entries(c@)),
        },
{
    match config {
        Some(config) => {
            let mut new_map = ExtensionMap::new();
            let mut i: usize = 0;
            proof {
                assert(config@.take(0) =~= Seq::<(String, Vec<String>)>::empty());
                assert(pair_views(new_map.entries@) =~= Seq::empty());
            }
            while i < config.len()
                invariant
                    i <= config@.len(),
                    pair_views(new_map.entries@) == exec_entries(config@.take(i as int)),
                decreases config@.len() - i,
            {
                let command = &config[i].0;
                let extensions = &config[i].1;
                let ghost prefix = exec_entries(config@.take(i as int));
                let mut j: usize = 0;
                while j < extensions.len()
                    invariant
                        i < config@.len(),
                        *command == config@[i as int].0,
                        *extensions == config@[i as int].1,
                        j <= extensions@.len(),
                        pair_views(new_map.entries@) == prefix + extensions@.take(j as int).map_values(
                            |e: String| (lowercase(e@), command@),
                        ),
                    decreases extensions@.len() - j,
                {
                    let ext = to_lowercase(extensions[j].as_str());
                    new_map.insert(ext, command.clone());
                    proof {
                        assert(extensions@.take(j + 1).map_values(|e: String| (lowercase(e@), command@))
                            =~= extensions@.take(j as int).map_values(|e: String| (lowercase(e@), command@)).push(
                            (lowercase(extensions@[j as int]@), command@)));
                    }
                    j = j + 1;
                }
                proof {
                    assert(extensions@.take(j as int) =~= extensions@);
                    assert(config@.take(i + 1).drop_last() =~= config@.take(i as int));
                    assert(config@.take(i + 1).last() == config@[i as int]);
                }
                i = i + 1;
            }
            proof {
                assert(config@.take(i as int) =~= config@);
            }
            Some(new_map)
        },
        None => None,
    }
}

} // verus!
