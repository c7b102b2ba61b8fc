//! The items of the directory on screen, the registers that hold yanked and
//! deleted items, and the state of the file manager around them.
use vstd::prelude::*;
use std::collections::VecDeque;
use crate::digits::{digit, digit_char, push_char, push_str};
use crate::functions::{split_from, split_lines_including_wide_char, string_views, shorten_from, shorten_str_including_wide_char};
use crate::keymap::KeyCode;
use crate::layout::{Layout, Num, PreviewType, Side, Split, BEGINNING_ROW, spec_make_layout, make_layout};
use crate::config::{Colorname, Config, ConfigColor, default_colors};
use vstd::utf8::encode_utf8;
use crate::session::{Session, SortKey};
use crate::arrange::{arrange, visible, sort_by_time, dirs_of, files_of, sorted_by_name, is_dir, lemma_listing_order, lemma_sort_by_time_multiset, lemma_partition_len, lemma_time_listing, not_older};
use crate::errors::FxError;
use crate::functions::{names_contain, ExtensionMap, to_extension_map, to_proper_size, spec_proper_size, convert_to_permissions, spec_permissions, rename_dir, rename_file, is_plain_file_name, is_first_free, dir_candidate, file_candidate, exec_entries, pair_views, assoc_map};
use crate::jumplist::JumpList;
use crate::op::{Operation, OpKind, DeletedFiles, PutFiles, kept};
use crate::cursor::{cursor_fits, spec_move_down, spec_move_up, move_down, move_up, lemma_move_down_fits, lemma_move_up_fits, steps_down, steps_up, half_rows};
use crate::digits::{decimal, push_decimal};

verus! {

/// The kind of a directory entry.
#[derive(Debug, Clone, Copy, PartialEq, Eq, Structural, PartialOrd, Ord, Hash)]
pub enum FileType {
    Directory,
    File,
    Symlink,
}

impl Default for FileType {
    fn default() -> (r: Self)
        ensures
            r == FileType::File,
    {
        FileType::File
    }
}

/// An item as the registers keep it: its kind, name and path.
#[derive(Debug, Clone)]
pub struct ItemBuffer {
    pub file_type: FileType,
    pub file_name: String,
    pub file_path: String,
}

impl View for ItemBuffer {
    type V = (FileType, Seq<char>, Seq<char>);

    open spec fn view(&self) -> (FileType, Seq<char>, Seq<char>) {
        (self.file_type, self.file_name@, self.file_path@)
    }
}

/// The views of a sequence of buffers.
pub open spec fn buffer_views(v: Seq<ItemBuffer>) -> Seq<(FileType, Seq<char>, Seq<char>)> {
    v.map_values(|b: ItemBuffer| b@)
}

/// One entry of the directory listing.
#[derive(Debug, Clone)]
pub struct ItemInfo {
    pub file_type: FileType,
    pub file_name: String,
    pub file_path: String,
    pub symlink_dir_path: Option<String>,
    pub file_size: u64,
    pub file_ext: Option<String>,
    pub modified: Option<String>,
    pub is_hidden: bool,
    pub selected: bool,
    pub matches: bool,
    pub preview_type: Option<PreviewType>,
    pub preview_scroll: usize,
    pub content: Option<String>,
    pub permissions: Option<u32>,
    pub is_dirty: bool,
}

impl ItemBuffer {
    /// The buffer of an item.
    pub fn new(item: &ItemInfo) -> (b: Self)
        ensures
            b@ == (item.file_type, item.file_name@, item.file_path@),
    {
        ItemBuffer {
            file_type: item.file_type,
            file_name: item.file_name.clone(),
            file_path: item.file_path.clone(),
        }
    }

    /// A copy with the same kind, name and path.
    pub fn duplicate(&self) -> (b: Self)
        ensures
            b@ == self@,
    {
        ItemBuffer {
            file_type: self.file_type,
            file_name: self.file_name.clone(),
            file_path: self.file_path.clone(),
        }
    }
}

/// Copies of the buffers of `items`, in order.
pub fn copy_buffers(items: &[ItemBuffer]) -> (r: Vec<ItemBuffer>)
    ensures
        buffer_views(r@) == buffer_views(items@),
{
    let mut r: Vec<ItemBuffer> = Vec::new();
    let mut i: usize = 0;
    while i < items.len()
        invariant
            i <= items@.len(),
            buffer_views(r@) == buffer_views(items@.take(i as int)),
        decreases items@.len() - i,
    {
        let ghost before = buffer_views(r@);
        let b = items[i].duplicate();
        r.push(b);
        proof {
            assert(buffer_views(r@) =~= before.push(items@[i as int]@));
            assert(items@.take(i + 1) =~= items@.take(i as int).push(items@[i as int]));
            assert(buffer_views(items@.take(i + 1)) =~= buffer_views(items@.take(i as int)).push(
                items@[i as int]@,
            ));
        }
        i = i + 1;
    }
    proof {
        assert(items@.take(items@.len() as int) =~= items@);
    }
    r
}

/// Named registers as key/contents pairs: `named_put` of a key keeps the pairs
/// before the first key that is not below it, then puts or replaces the pair.
pub open spec fn named_put<V>(s: Seq<(char, V)>, k: char, v: V) -> Seq<(char, V)>
    decreases s.len(),
{
    if s.len() == 0 {
        seq![(k, v)]
    } else if s[0].0 < k {
        seq![s[0]] + named_put(s.drop_first(), k, v)
    } else if s[0].0 == k {
        seq![(k, v)] + s.drop_first()
    } else {
        seq![(k, v)] + s
    }
}

/// The contents bound to `k`: those of the first pair for `k`.
pub open spec fn named_get<V>(s: Seq<(char, V)>, k: char) -> Option<V>
    decreases s.len(),
{
    if s.len() == 0 {
        None
    } else if s[0].0 == k {
        Some(s[0].1)
    } else {
        named_get(s.drop_first(), k)
    }
}

/// The keys are strictly increasing (so each key occurs once, in the order a
/// `BTreeMap` would walk them).
pub open spec fn keys_ascending<V>(s: Seq<(char, V)>) -> bool {
    forall|i: int, j: int| 0 <= i < j < s.len() ==> s[i].0 < s[j].0
}

/// Where `named_put` puts the pair: at `i`, past the keys below `k`.
proof fn lemma_named_put_at<V>(s: Seq<(char, V)>, k: char, v: V, i: int)
    requires
        0 <= i <= s.len(),
        forall|j: int| 0 <= j < i ==> (#[trigger] s[j]).0 < k,
        i < s.len() ==> k <= s[i].0,
    ensures
        named_put(s, k, v) == if i < s.len() && s[i].0 == k {
            s.update(i, (k, v))
        } else {
            s.insert(i, (k, v))
        },
    decreases i,
{
    if i == 0 {
        if s.len() > 0 {
            assert(s[0].0 == k <==> s[0].0 == k);
            assert(seq![(k, v)] + s.drop_first() =~= s.update(0, (k, v)));
        }
        assert(seq![(k, v)] + s =~= s.insert(0, (k, v)));
    } else {
        let t = s.drop_first();
        assert forall|j: int| 0 <= j < i - 1 implies (#[trigger] t[j]).0 < k by {
            assert(t[j] == s[j + 1]);
        }
        lemma_named_put_at(t, k, v, i - 1);
        assert(s[0].0 < k);
        if i < s.len() && s[i].0 == k {
            assert(seq![s[0]] + t.update(i - 1, (k, v)) =~= s.update(i, (k, v)));
        } else {
            assert(seq![s[0]] + t.insert(i - 1, (k, v)) =~= s.insert(i, (k, v)));
        }
    }
}

/// Where `named_get` finds the key: at `i`, past the keys below `k`.
proof fn lemma_named_get_at<V>(s: Seq<(char, V)>, k: char, i: int)
    requires
        0 <= i <= s.len(),
        forall|j: int| 0 <= j < i ==> (#[trigger] s[j]).0 < k,
        i < s.len() ==> k <= s[i].0,
        keys_ascending(s),
    ensures
        named_get(s, k) == if i < s.len() && s[i].0 == k {
            Some(s[i].1)
        } else {
            None::<V>
        },
    decreases s.len(),
{
    if s.len() == 0 {
    } else if i == 0 {
        if s[0].0 == k {
        } else {
            // every key from 0 on is above `k`
            lemma_named_get_absent(s, k);
        }
    } else {
        let t = s.drop_first();
        assert forall|j: int| 0 <= j < i - 1 implies (#[trigger] t[j]).0 < k by {
            assert(t[j] == s[j + 1]);
        }
        assert(keys_ascending(t)) by {
            assert forall|a: int, b: int| 0 <= a < b < t.len() implies t[a].0 < t[b].0 by {
                assert(t[a] == s[a + 1] && t[b] == s[b + 1]);
            }
        }
        assert(s[0].0 < k);
        lemma_named_get_at(t, k, i - 1);
    }
}

/// A key below all keys is not bound.
proof fn lemma_named_get_absent<V>(s: Seq<(char, V)>, k: char)
    requires
        keys_ascending(s),
        s.len() > 0 ==> k < s[0].0,
    ensures
        named_get(s, k) is None,
    decreases s.len(),
{
    if s.len() > 0 {
        let t = s.drop_first();
        if t.len() > 0 {
            assert(t[0] == s[1]);
            assert(s[0].0 < s[1].0);
        }
        assert(keys_ascending(t)) by {
            assert forall|a: int, b: int| 0 <= a < b < t.len() implies t[a].0 < t[b].0 by {
                assert(t[a] == s[a + 1] && t[b] == s[b + 1]);
            }
        }
        lemma_named_get_absent(t, k);
    }
}

/// Putting a pair keeps the keys ascending.
proof fn lemma_named_put_ascending<V>(s: Seq<(char, V)>, k: char, v: V)
    requires
        keys_ascending(s),
    ensures
        keys_ascending(named_put(s, k, v)),
        named_put(s, k, v).len() > 0,
        forall|j: int| 0 <= j < named_put(s, k, v).len() ==>
            (#[trigger] named_put(s, k, v)[j]).0 == k || (exists|m: int| 0 <= m < s.len() && s[m].0 == named_put(s, k, v)[j].0),
    decreases s.len(),
{
    let r = named_put(s, k, v);
    if s.len() == 0 {
    } else if s[0].0 < k {
        let t = s.drop_first();
        assert(keys_ascending(t)) by {
            assert forall|a: int, b: int| 0 <= a < b < t.len() implies t[a].0 < t[b].0 by {
                assert(t[a] == s[a + 1] && t[b] == s[b + 1]);
            }
        }
        lemma_named_put_ascending(t, k, v);
        let rt = named_put(t, k, v);
        assert(r == seq![s[0]] + rt);
        assert forall|j: int| 0 <= j < rt.len() implies s[0].0 < #[trigger] rt[j].0 by {
            if rt[j].0 != k {
                let m = choose|m: int| 0 <= m < t.len() && t[m].0 == rt[j].0;
                assert(t[m] == s[m + 1]);
            }
        }
        assert forall|a: int, b: int| 0 <= a < b < r.len() implies r[a].0 < r[b].0 by {
            if a == 0 {
                assert(r[b] == rt[b - 1]);
            } else {
                assert(r[a] == rt[a - 1] && r[b] == rt[b - 1]);
            }
        }
        assert forall|j: int| 0 <= j < r.len() implies
            (#[trigger] r[j]).0 == k || (exists|m: int| 0 <= m < s.len() && s[m].0 == r[j].0) by {
            if j == 0 {
                assert(s[0].0 == r[0].0);
            } else {
                assert(r[j] == rt[j - 1]);
                if rt[j - 1].0 != k {
                    let m = choose|m: int| 0 <= m < t.len() && t[m].0 == rt[j - 1].0;
                    assert(t[m] == s[m + 1]);
                }
            }
        }
    } else if s[0].0 == k {
        assert forall|a: int, b: int| 0 <= a < b < r.len() implies r[a].0 < r[b].0 by {
            assert(r[b] == s[b]);
            if a > 0 {
                assert(r[a] == s[a]);
            }
        }
        assert forall|j: int| 0 <= j < r.len() implies
            (#[trigger] r[j]).0 == k || (exists|m: int| 0 <= m < s.len() && s[m].0 == r[j].0) by {
            if j > 0 {
                assert(r[j] == s[j]);
            }
        }
    } else {
        assert(k < s[0].0) by {
            assert(s[0].0 != k ==> s[0].0 != k);
        }
        assert forall|a: int, b: int| 0 <= a < b < r.len() implies r[a].0 < r[b].0 by {
            assert(r[b] == s[b - 1]);
            if a > 0 {
                assert(r[a] == s[a - 1]);
            }
        }
        assert forall|j: int| 0 <= j < r.len() implies
            (#[trigger] r[j]).0 == k || (exists|m: int| 0 <= m < s.len() && s[m].0 == r[j].0) by {
            if j > 0 {
                assert(r[j] == s[j - 1]);
            }
        }
    }
}

/// After putting `k`, `k` is bound to the new contents and every other key to
/// what it was bound to before.
pub proof fn law_named_put_get<V>(s: Seq<(char, V)>, k: char, v: V, q: char)
    requires
        keys_ascending(s),
    ensures
        named_get(named_put(s, k, v), q) == if q == k {
            Some(v)
        } else {
            named_get(s, q)
        },
    decreases s.len(),
{
    if s.len() == 0 {
        let r = seq![(k, v)];
        assert(r[0] == (k, v));
        assert(r.drop_first().len() == 0);
        assert(named_get(r.drop_first(), q) is None);
        assert(named_put(s, k, v) == r);
        assert(named_get(named_put(s, k, v), q) == if q == k { Some(v) } else { named_get(s, q) });
    } else if s[0].0 < k {
        let t = s.drop_first();
        assert(keys_ascending(t)) by {
            assert forall|a: int, b: int| 0 <= a < b < t.len() implies t[a].0 < t[b].0 by {
                assert(t[a] == s[a + 1] && t[b] == s[b + 1]);
            }
        }
        law_named_put_get(t, k, v, q);
        let r = seq![s[0]] + named_put(t, k, v);
        assert(r.drop_first() =~= named_put(t, k, v));
        assert(r[0] == s[0]);
        assert(named_get(r, q) == if s[0].0 == q { Some(s[0].1) } else { named_get(named_put(t, k, v), q) });
        assert(named_put(s, k, v) == r);
        assert(named_get(named_put(s, k, v), q) == if q == k { Some(v) } else { named_get(s, q) });
    } else if s[0].0 == k {
        let r = seq![(k, v)] + s.drop_first();
        assert(r.drop_first() =~= s.drop_first());
        assert(r[0] == (k, v));
    } else {
        let r = seq![(k, v)] + s;
        assert(r.drop_first() =~= s);
        assert(r[0] == (k, v));
    }
}

/// What yanking the items `items` (into register `reg`, appending or not)
/// makes of registers `a`: the unnamed register holds them, and the yank
/// register too when no register is named; a named register holds them, after
/// what it held when appending; the numbered registers are kept.
pub open spec fn is_yank(a: Registers, b: Registers, items: Seq<(FileType, Seq<char>, Seq<char>)>, reg: Option<char>, append: bool) -> bool {
    &&& buffer_views(b.unnamed@) == items
    &&& b.numbered@ == a.numbered@
    &&& match reg {
        None => {
            &&& buffer_views(b.zero@) == items
            &&& b.named@ == a.named@
        },
        Some(c) => {
            &&& b.zero@ == a.zero@
            &&& named_views(b.named@) == named_put(
                named_views(a.named@),
                c,
                match named_get(named_views(a.named@), c) {
                    Some(before) => if append { before + items } else { items },
                    None => items,
                },
            )
        },
    }
}

/// What a yank reads back: the unnamed register holds the yanked items; the
/// yank register holds them too when no register was named; a named register
/// holds them, after what it held when appending.
pub proof fn law_yank_then_read(a: Registers, b: Registers, items: Seq<ItemBuffer>, reg: Option<char>, append: bool)
    requires
        a.wf(),
        is_yank(a, b, buffer_views(items), reg, append),
    ensures
        reg_lookup(b, KeyCode::Char('"')) == Some(buffer_views(items)),
        reg is None ==> reg_lookup(b, KeyCode::Char('0')) == Some(buffer_views(items)),
        reg matches Some(c) ==> ((('a' <= c <= 'z') || ('A' <= c <= 'Z')) ==> reg_lookup(b, KeyCode::Char(c)) == match reg_lookup(a, KeyCode::Char(c)) {
            Some(before) => if append {
                Some(before + buffer_views(items))
            } else {
                Some(buffer_views(items))
            },
            None => Some(buffer_views(items)),
        }),
{
    if let Some(c) = reg {
        law_named_put_get(
            named_views(a.named@),
            c,
            match named_get(named_views(a.named@), c) {
                Some(before) => if append {
                    before + buffer_views(items)
                } else {
                    buffer_views(items)
                },
                None => buffer_views(items),
            },
            c,
        );
    }
}

/// What a deletion reads back: the unnamed register and numbered register 1
/// hold what went to the trash, and what registers 1 to 8 held moves to
/// registers 2 to 9.
pub proof fn law_delete_then_read(a: Registers, b: Registers, dest: Seq<ItemBuffer>, k: nat)
    requires
        a.wf(),
        dest.len() > 0,
        buffer_views(b.unnamed@) == buffer_views(dest),
        numbered_views(b.numbered@) == seq![buffer_views(dest)] + numbered_views(a.numbered@).take(
            if a.numbered@.len() == 9 { 8 } else { a.numbered@.len() as int },
        ),
        1 <= k <= 8,
    ensures
        reg_lookup(b, KeyCode::Char('"')) == Some(buffer_views(dest)),
        reg_lookup(b, KeyCode::Char('1')) == Some(buffer_views(dest)),
        reg_lookup(b, KeyCode::Char(digit_char(k + 1))) == reg_lookup(a, KeyCode::Char(digit_char(k))),
{
    let nb = numbered_views(b.numbered@);
    assert(nb[0] == buffer_views(dest));
    assert(b.numbered@.len() == nb.len());
    assert(buffer_views(b.numbered@[0]@) == nb[0]);
    if k < a.numbered@.len() + 1 && k - 1 < a.numbered@.len() {
        assert(nb[k as int] == numbered_views(a.numbered@)[k - 1]);
        assert(buffer_views(b.numbered@[k as int]@) == nb[k as int]);
    }
}

/// Registers: the unnamed register (`""`), the yank register (`"0`), the
/// numbered registers of deletions (`"1` newest), and named registers (`"a`..).
#[derive(Debug)]
pub struct Registers {
    pub unnamed: Vec<ItemBuffer>,
    pub zero: Vec<ItemBuffer>,
    pub numbered: VecDeque<Vec<ItemBuffer>>,
    pub named: Vec<(char, Vec<ItemBuffer>)>,
}

/// The views of named registers.
pub open spec fn named_views(s: Seq<(char, Vec<ItemBuffer>)>) -> Seq<(char, Seq<(FileType, Seq<char>, Seq<char>)>)> {
    s.map_values(|p: (char, Vec<ItemBuffer>)| (p.0, buffer_views(p.1@)))
}

/// The views of numbered registers.
pub open spec fn numbered_views(s: Seq<Vec<ItemBuffer>>) -> Seq<Seq<(FileType, Seq<char>, Seq<char>)>> {
    s.map_values(|v: Vec<ItemBuffer>| buffer_views(v@))
}

impl Registers {
    /// Named registers are kept with ascending, distinct keys, and there are
    /// at most nine numbered registers.
    pub open spec fn wf(self) -> bool {
        &&& keys_ascending(named_views(self.named@))
        &&& self.numbered@.len() <= 9
    }

    /// Empty registers.
    pub fn new() -> (r: Self)
        ensures
            r.wf(),
            r.unnamed@.len() == 0 && r.zero@.len() == 0,
            r.numbered@.len() == 0 && r.named@.len() == 0,
    {
        Registers { unnamed: Vec::new(), zero: Vec::new(), numbered: VecDeque::new(), named: Vec::new() }
    }

    /// Put `v` into named register `reg`, replacing its contents.
    fn put_named(&mut self, reg: char, v: Vec<ItemBuffer>)
        requires
            old(self).wf(),
        ensures
            final(self).wf(),
            named_views(final(self).named@) == named_put(named_views(old(self).named@), reg, buffer_views(v@)),
            final(self).unnamed@ == old(self).unnamed@,
            final(self).zero@ == old(self).zero@,
            final(self).numbered@ == old(self).numbered@,
    {
        let ghost s = named_views(self.named@);
        let ghost bv = buffer_views(v@);
        let mut i: usize = 0;
        while i < self.named.len() && self.named[i].0 < reg
            invariant
                i <= self.named@.len(),
                s == named_views(self.named@),
                forall|j: int| 0 <= j < i ==> (#[trigger] s[j]).0 < reg,
            decreases self.named@.len() - i,
        {
            i = i + 1;
        }
        proof {
            lemma_named_put_at(s, reg, bv, i as int);
            lemma_named_put_ascending(s, reg, bv);
        }
        if i < self.named.len() && self.named[i].0 == reg {
            self.named.set(i, (reg, v));
            proof {
                assert(named_views(self.named@) =~= s.update(i as int, (reg, bv)));
            }
        } else {
            self.named.insert(i, (reg, v));
            proof {
                assert(named_views(self.named@) =~= s.insert(i as int, (reg, bv)));
            }
        }
    }

    /// The contents of named register `reg`, if it holds any.
    fn get_named(&self, reg: char) -> (r: Option<Vec<ItemBuffer>>)
        requires
            self.wf(),
        ensures
            match r {
                Some(v) => named_get(named_views(self.named@), reg) == Some(buffer_views(v@)),
                None => named_get(named_views(self.named@), reg) is None,
            },
    {
        let ghost s = named_views(self.named@);
        let mut i: usize = 0;
        while i < self.named.len() && self.named[i].0 < reg
            invariant
                i <= self.named@.len(),
                s == named_views(self.named@),
                forall|j: int| 0 <= j < i ==> (#[trigger] s[j]).0 < reg,
            decreases self.named@.len() - i,
        {
            i = i + 1;
        }
        proof {
            lemma_named_get_at(s, reg, i as int);
        }
        if i < self.named.len() && self.named[i].0 == reg {
            Some(copy_buffers(self.named[i].1.as_slice()))
        } else {
            None
        }
    }

    /// Append ItemBuffer to named register.
    pub fn append_item(&mut self, items: &[ItemBuffer], reg: char) -> (n: usize)
        requires
            old(self).wf(),
        ensures
            final(self).wf(),
            n == items@.len(),
            named_views(final(self).named@) == named_put(
                named_views(old(self).named@),
                reg,
                match named_get(named_views(old(self).named@), reg) {
                    Some(before) => before + buffer_views(items@),
                    None => buffer_views(items@),
                },
            ),
            final(self).unnamed@ == old(self).unnamed@,
            final(self).zero@ == old(self).zero@,
            final(self).numbered@ == old(self).numbered@,
    {
        match self.get_named(reg) {
            Some(v) => {
                let mut v = v;
                let ghost before = buffer_views(v@);
                let mut extra = copy_buffers(items);
                v.append(&mut extra);
                proof {
                    assert(buffer_views(v@) =~= before + buffer_views(items@));
                }
                self.put_named(reg, v);
            },
            None => {
                let v = copy_buffers(items);
                self.put_named(reg, v);
            },
        }
        items.len()
    }

    /// Register selected items to unnamed and zero registers.
    /// Also register to named when needed.
    pub fn yank_item(&mut self, items: &[ItemBuffer], reg: Option<char>, append: bool) -> (n: usize)
        requires
            old(self).wf(),
        ensures
            final(self).wf(),
            n == items@.len(),
            is_yank(*old(self), *final(self), buffer_views(items@), reg, append),
    {
        self.unnamed = copy_buffers(items);
        match reg {
            None => {
                self.zero = copy_buffers(items);
            },
            Some(c) => {
                if append {
                    self.append_item(items, c);
                } else {
                    let v = copy_buffers(items);
                    self.put_named(c, v);
                }
            },
        }
        items.len()
    }

    /// Return Vec<ItemBuffer> from registers according to the KeyCode, if exists.
    pub fn check_reg(&self, code: &KeyCode) -> (r: Option<Vec<ItemBuffer>>)
        requires
            self.wf(),
        ensures
            match r {
                Some(v) => reg_lookup(*self, *code) == Some(buffer_views(v@)),
                None => reg_lookup(*self, *code) is None,
            },
    {
        match code {
            KeyCode::Char(c) => {
                let c = *c;
                if c == '"' {
                    Some(copy_buffers(self.unnamed.as_slice()))
                } else if c == '0' {
                    Some(copy_buffers(self.zero.as_slice()))
                } else if '1' <= c && c <= '9' {
                    let d = (c as u32 - '1' as u32) as usize;
                    if d < self.numbered.len() {
                        let v = &self.numbered[d];
                        Some(copy_buffers(v.as_slice()))
                    } else {
                        None
                    }
                } else if ('a' <= c && c <= 'z') || ('A' <= c && c <= 'Z') {
                    self.get_named(c)
                } else {
                    None
                }
            },
            _ => None,
        }
    }
}

/// The names of `b`, each after a space.
pub open spec fn names_text(b: Seq<ItemBuffer>) -> Seq<char>
    decreases b.len(),
{
    if b.len() == 0 {
        Seq::empty()
    } else {
        names_text(b.drop_last()) + seq![' '] + b.last().file_name@
    }
}

/// The line that shows a register: `"`, the register's name, its items' names.
pub open spec fn reg_line(x: char, b: Seq<ItemBuffer>) -> Seq<char> {
    seq!['"', x] + names_text(b) + seq!['\n']
}

/// The lines of numbered registers `1` to `k` that hold something.
pub open spec fn numbered_lines(n: Seq<Vec<ItemBuffer>>, k: nat) -> Seq<char>
    decreases k,
{
    if k == 0 {
        Seq::empty()
    } else {
        numbered_lines(n, (k - 1) as nat) + if k - 1 < n.len() {
            reg_line(digit_char(k), n[k - 1]@)
        } else {
            Seq::empty()
        }
    }
}

/// The lines of the named registers, in the order they are kept.
pub open spec fn named_lines(s: Seq<(char, Vec<ItemBuffer>)>) -> Seq<char>
    decreases s.len(),
{
    if s.len() == 0 {
        Seq::empty()
    } else {
        named_lines(s.drop_last()) + reg_line(s.last().0, s.last().1@)
    }
}

/// The text of all registers: the unnamed and yank registers when not empty,
/// the numbered registers `1` to `9`, then the named ones.
pub open spec fn reg_text(r: Registers) -> Seq<char> {
    (if r.unnamed@.len() > 0 {
        reg_line('"', r.unnamed@)
    } else {
        Seq::empty()
    }) + (if r.zero@.len() > 0 {
        reg_line('0', r.zero@)
    } else {
        Seq::empty()
    }) + numbered_lines(r.numbered@, 9) + named_lines(r.named@)
}

/// A text without its last character, if it has one.
pub open spec fn without_last(t: Seq<char>) -> Seq<char> {
    if t.len() > 0 {
        t.drop_last()
    } else {
        t
    }
}

/// Appending a line that ends in a newline to a text that is empty or ends in one.
proof fn lemma_append_line(t: Seq<char>, x: char, b: Seq<ItemBuffer>)
    requires
        t.len() > 0 ==> t.last() == '\n',
    ensures
        without_last(t + reg_line(x, b)) == (if t.len() > 0 {
            without_last(t) + seq!['\n']
        } else {
            Seq::empty()
        }) + seq!['"', x] + names_text(b),
        (t + reg_line(x, b)).len() > 0,
        (t + reg_line(x, b)).last() == '\n',
{
    let l = reg_line(x, b);
    assert((t + l).drop_last() =~= t + l.drop_last());
    assert(l.drop_last() =~= seq!['"', x] + names_text(b));
    if t.len() > 0 {
        assert(t =~= t.drop_last() + seq!['\n']);
        assert(t + l.drop_last() =~= t.drop_last() + seq!['\n'] + seq!['"', x] + names_text(b));
    } else {
        assert(t + l.drop_last() =~= Seq::<char>::empty() + seq!['"', x] + names_text(b));
    }
}

/// Appends a space and each item's name.
fn push_names(s: &mut String, b: &[ItemBuffer])
    ensures
        final(s)@ == old(s)@ + names_text(b@),
{
    let mut i: usize = 0;
    while i < b.len()
        invariant
            i <= b@.len(),
            s@ == old(s)@ + names_text(b@.take(i as int)),
        decreases b@.len() - i,
    {
        push_char(s, ' ');
        push_str(s, b[i].file_name.as_str());
        proof {
            assert(b@.take(i + 1).drop_last() =~= b@.take(i as int));
            assert(b@.take(i + 1).last() == b@[i as int]);
        }
        i = i + 1;
    }
    proof {
        assert(b@.take(b@.len() as int) =~= b@);
    }
}

/// Appends the line of one register, after a newline if something came before.
fn push_reg_line(s: &mut String, emitted: bool, x: char, b: &[ItemBuffer])
    ensures
        final(s)@ == old(s)@ + (if emitted {
            seq!['\n']
        } else {
            Seq::empty()
        }) + seq!['"', x] + names_text(b@),
{
    let ghost start = s@;
    if emitted {
        push_char(s, '\n');
    }
    let ghost mid = s@;
    push_char(s, '"');
    push_char(s, x);
    push_names(s, b);
    proof {
        if emitted {
            assert(s@ =~= start + seq!['\n'] + seq!['"', x] + names_text(b@));
        } else {
            assert(s@ =~= start + Seq::<char>::empty() + seq!['"', x] + names_text(b@));
        }
    }
}

/// What a register key typed after `"` asks of a yank or a delete: a lower-case
/// ASCII letter names that register, an upper-case one names the register of
/// its lower-case letter and asks to append to it; any other key names none.
pub open spec fn spec_register_key(c: char) -> Option<(char, bool)> {
    if 'a' <= c <= 'z' {
        Some((c, false))
    } else if 'A' <= c <= 'Z' {
        Some((((c as u32) + 32) as char, true))
    } else {
        None
    }
}

/// The register and the append flag that a register key asks for.
pub fn register_key(c: char) -> (r: Option<(char, bool)>)
    ensures
        r == spec_register_key(c),
{
    if 'a' <= c && c <= 'z' {
        Some((c, false))
    } else if 'A' <= c && c <= 'Z' {
        let b: u8 = (c as u32 + 32) as u8;
        Some((b as char, true))
    } else {
        None
    }
}

impl Registers {
    /// Return Vec<String> that contains item names in the register.
    pub fn prepare_reg(&self, width: u16) -> (r: Vec<String>)
        ensures
            string_views(r@) == split_from(
                Seq::empty(),
                Seq::empty(),
                without_last(reg_text(*self)),
                width as nat,
            ),
    {
        let mut s = String::new();
        let mut emitted = false;
        let ghost mut t: Seq<char> = Seq::empty();
        if self.unnamed.len() > 0 {
            proof {
                lemma_append_line(t, '"', self.unnamed@);
            }
            push_reg_line(&mut s, emitted, '"', self.unnamed.as_slice());
            proof {
                t = t + reg_line('"', self.unnamed@);
            }
            emitted = true;
        }
        if self.zero.len() > 0 {
            proof {
                lemma_append_line(t, '0', self.zero@);
            }
            push_reg_line(&mut s, emitted, '0', self.zero.as_slice());
            proof {
                t = t + reg_line('0', self.zero@);
            }
            emitted = true;
        }
        let ghost head = t;
        proof {
            assert(s@ == without_last(t));
            assert(t == head + numbered_lines(self.numbered@, 0));
        }
        let mut i: u64 = 1;
        while i <= 9
            invariant
                1 <= i <= 10,
                t == head + numbered_lines(self.numbered@, (i - 1) as nat),
                s@ == without_last(t),
                emitted <==> t.len() > 0,
                t.len() > 0 ==> t.last() == '\n',
            decreases 10 - i,
        {
            let k: usize = (i - 1) as usize;
            let x = digit(i);
            if k < self.numbered.len() {
                let v = &self.numbered[k];
                proof {
                    lemma_append_line(t, x, v@);
                }
                push_reg_line(&mut s, emitted, x, v.as_slice());
                proof {
                    assert(head + numbered_lines(self.numbered@, i as nat) =~= t + reg_line(x, v@));
                    t = t + reg_line(x, v@);
                }
                emitted = true;
            } else {
                proof {
                    assert(head + numbered_lines(self.numbered@, i as nat) =~= t);
                }
            }
            i = i + 1;
        }
        let ghost mid = t;
        proof {
            assert(t == mid + named_lines(self.named@.take(0)));
        }
        let mut j: usize = 0;
        while j < self.named.len()
            invariant
                j <= self.named@.len(),
                t == mid + named_lines(self.named@.take(j as int)),
                s@ == without_last(t),
                emitted <==> t.len() > 0,
                t.len() > 0 ==> t.last() == '\n',
            decreases self.named@.len() - j,
        {
            let c = self.named[j].0;
            let v = &self.named[j].1;
            proof {
                lemma_append_line(t, c, v@);
                assert(self.named@.take(j + 1).drop_last() =~= self.named@.take(j as int));
                assert(self.named@.take(j + 1).last() == self.named@[j as int]);
            }
            push_reg_line(&mut s, emitted, c, v.as_slice());
            proof {
                t = t + reg_line(c, v@);
            }
            emitted = true;
            j = j + 1;
        }
        proof {
            assert(self.named@.take(self.named@.len() as int) =~= self.named@);
            assert(t =~= reg_text(*self));
        }
        split_lines_including_wide_char(s.as_str(), width as usize)
    }
}

/// What the register a key names holds: `"` the unnamed register, `0` the
/// yank register, `1`..`9` the numbered ones, a letter a named one.
pub open spec fn reg_lookup(r: Registers, code: KeyCode) -> Option<Seq<(FileType, Seq<char>, Seq<char>)>> {
    match code {
        KeyCode::Char(c) => if c == '"' {
            Some(buffer_views(r.unnamed@))
        } else if c == '0' {
            Some(buffer_views(r.zero@))
        } else if '1' <= c <= '9' {
            let d = (c as u32) - ('1' as u32);
            if d < r.numbered@.len() {
                Some(buffer_views(r.numbered@[d]@))
            } else {
                None
            }
        } else if ('a' <= c <= 'z') || ('A' <= c <= 'Z') {
            named_get(named_views(r.named@), c)
        } else {
            None
        },
        _ => None,
    }
}

/// Where a directory change comes from: going up to the parent, down into a
/// child, jumping elsewhere, or choosing from a list.
#[derive(Debug, Clone, Copy, PartialEq, Eq, Structural)]
pub enum Move {
    Up,
    Down,
    Jump,
    List,
}

/// The cursor position remembered for a directory.
#[derive(Debug, Clone)]
pub struct StateMemo {
    pub path: String,
    pub num: Num,
    pub cursor_pos: u16,
}

/// How to place the cursor once the new directory is listed: on the row a
/// memo kept, on the entry with the given name (the first entry if there is
/// none), or at the top.
#[derive(Debug, Clone)]
pub enum CursorPlan {
    Restore(u16),
    OnName(Option<String>),
    Top,
}

/// The state of the file manager.
#[derive(Debug)]
pub struct State {
    pub list: Vec<ItemInfo>,
    pub current_dir: String,
    pub trash_dir: String,
    pub lwd_file: Option<String>,
    pub match_vim_exit_behavior: bool,
    pub has_zoxide: bool,
    pub default: String,
    pub commands: Option<ExtensionMap>,
    pub registers: Registers,
    pub operations: Operation,
    pub jumplist: JumpList,
    pub c_memo: Vec<StateMemo>,
    pub p_memo: Vec<StateMemo>,
    pub keyword: Option<String>,
    pub layout: Layout,
    pub v_start: Option<usize>,
    pub is_ro: bool,
}

/// Whether `n` occurs in `h`.
pub open spec fn has_substring(h: Seq<char>, n: Seq<char>) -> bool {
    exists|i: int| 0 <= i && i + n.len() <= h.len() && #[trigger] h.subrange(i, i + n.len()) == n
}

/// Whether `n` occurs in `h`.
pub fn text_contains(h: &str, n: &str) -> (b: bool)
    ensures
        b == has_substring(h@, n@),
{
    let hl = h.unicode_len();
    let nl = n.unicode_len();
    if nl > hl {
        return false;
    }
    let last = hl - nl;
    let mut i: usize = 0;
    loop
        invariant
            hl == h@.len(),
            nl == n@.len(),
            last == hl - nl,
            i <= last,
            forall|j: int| 0 <= j < i ==> #[trigger] h@.subrange(j, j + nl) != n@,
        decreases last - i,
    {
        let mut k: usize = 0;
        while k < nl && h.get_char(i + k) == n.get_char(k)
            invariant
                k <= nl,
                i + nl <= hl,
                hl == h@.len(),
                nl == n@.len(),
                forall|m: int| 0 <= m < k ==> h@[i + m] == n@[m],
            decreases nl - k,
        {
            k = k + 1;
        }
        if k == nl {
            proof {
                assert(h@.subrange(i as int, i + nl) =~= n@);
            }
            return true;
        }
        proof {
            assert(h@.subrange(i as int, i + nl)[k as int] != n@[k as int]);
        }
        if i == last {
            return false;
        }
        i = i + 1;
    }
}

/// How many of `list` have a name in which `kw` occurs.
pub open spec fn match_count(list: Seq<ItemInfo>, kw: Seq<char>) -> nat
    decreases list.len(),
{
    if list.len() == 0 {
        0
    } else {
        match_count(list.drop_last(), kw) + if has_substring(list.last().file_name@, kw) {
            1nat
        } else {
            0nat
        }
    }
}

/// The first `n` characters of `s` (all of them when there are fewer).
pub open spec fn take_chars(s: Seq<char>, n: nat) -> Seq<char> {
    if s.len() <= n {
        s
    } else {
        s.take(n as int)
    }
}

/// The footer for an item: its position in the list, extension, size and
/// permissions.
pub open spec fn spec_footer(index: nat, total: nat, item: ItemInfo) -> Seq<char> {
    seq![' '] + decimal(index + 1) + seq!['/'] + decimal(total) + (match item.file_ext {
        Some(e) => seq![' '] + e@,
        None => Seq::empty(),
    }) + seq![' '] + spec_proper_size(item.file_size as nat) + (match item.permissions {
        Some(p) => seq![' '] + spec_permissions(p as nat),
        None => Seq::empty(),
    })
}

/// The footer while a keyword is searched: the keyword and the number of matches.
pub open spec fn spec_keyword_footer(kw: Seq<char>, count: nat) -> Seq<char> {
    seq![' ', '/'] + kw + seq![' ', '-', ' '] + decimal(count) + if count <= 1 {
        seq![' ', 'm', 'a', 't', 'c', 'h']
    } else {
        seq![' ', 'm', 'a', 't', 'c', 'h', 'e', 's']
    }
}

/// A directory path with a name appended as its last component.
pub open spec fn path_join(dir: Seq<char>, name: Seq<char>) -> Seq<char> {
    if dir.len() == 0 || dir.last() == '/' {
        dir + name
    } else {
        dir + seq!['/'] + name
    }
}

/// The views of the names of `list`.
pub open spec fn item_names(list: Seq<ItemInfo>) -> Seq<Seq<char>> {
    list.map_values(|i: ItemInfo| i.file_name@)
}

impl State {
    /// Initialize the state of the app, for a terminal of `column` x `row`
    /// cells. `editor` is the command used when the configuration names no
    /// default; `has_*` and `is_kitty` say what the machine offers.
    pub fn new(
        config: Config,
        session: Session,
        column: u16,
        row: u16,
        has_bat: bool,
        has_chafa: bool,
        has_zoxide: bool,
        is_kitty: bool,
        editor: String,
    ) -> (r: Result<State, FxError>)
        requires
            config.exec_ordered(),
        ensures
            (column < 4 || row < 4) <==> r is Err,
            r matches Err(e) ==> e == FxError::TooSmallWindowSize,
            r matches Ok(st) ==> {
                &&& st.list@.len() == 0
                &&& st.registers.wf()
                &&& st.registers.unnamed@.len() == 0 && st.registers.zero@.len() == 0
                &&& st.registers.numbered@.len() == 0 && st.registers.named@.len() == 0
                &&& st.operations.pos == 0 && st.operations.op_list@.len() == 0
                &&& st.current_dir@.len() == 0 && st.trash_dir@.len() == 0
                &&& st.lwd_file is None
                &&& st.match_vim_exit_behavior == (config.match_vim_exit_behavior == Some(true))
                &&& st.has_zoxide == has_zoxide
                &&& st.default@ == match config.default {
                    Some(d) => d@,
                    None => editor@,
                }
                &&& match config.exec_config {
                    None => st.commands is None,
                    Some(c) => st.commands matches Some(m) && m@ == assoc_map(exec_entries(c@)),
                }
                &&& st.jumplist.pos == 0 && st.jumplist.list@.len() == 0
                &&& st.c_memo@.len() == 0 && st.p_memo@.len() == 0
                &&& st.keyword is None
                &&& st.v_start is None
                &&& !st.is_ro
                &&& st.layout.terminal_column == column && st.layout.terminal_row == row
                &&& st.layout.nums == Num { index: 0, skip: 0 }
                &&& st.layout.y == BEGINNING_ROW
                &&& st.layout.sort_by == session.sort_by
                &&& st.layout.show_hidden == session.show_hidden
                &&& st.layout.side == if session.preview == Some(true) { Side::Preview } else { Side::Empty }
                &&& st.layout.has_bat == has_bat && st.layout.has_chafa == has_chafa
                &&& st.layout.is_kitty == is_kitty
                &&& st.layout.split == match session.split {
                    Some(s) => s,
                    None => Split::Vertical,
                }
                &&& st.layout.colors == match config.color {
                    Some(c) => c,
                    None => default_colors(),
                }
                &&& st.layout.time_start_pos as int == spec_make_layout(column as int).0
                &&& st.layout.name_max_len as int == spec_make_layout(column as int).1
                &&& st.layout.preview_start == (0u16, 0u16)
                &&& st.layout.preview_space == (0u16, 0u16)
            },
    {
        let commands = to_extension_map(&config.exec_config);
        let vim = match config.match_vim_exit_behavior {
            Some(b) => b,
            None => false,
        };
        let default = match &config.default {
            Some(d) => d.clone(),
            None => editor,
        };
        let layout = match Layout::new(column, row, &session, config, has_bat, has_chafa, is_kitty) {
            Ok(l) => l,
            Err(e) => {
                return Err(e);
            },
        };
        Ok(State {
            list: Vec::new(),
            current_dir: String::new(),
            trash_dir: String::new(),
            lwd_file: None,
            match_vim_exit_behavior: vim,
            has_zoxide,
            default,
            commands,
            registers: Registers::new(),
            operations: Operation::new(),
            jumplist: JumpList { pos: 0, list: VecDeque::new() },
            c_memo: Vec::new(),
            p_memo: Vec::new(),
            keyword: None,
            layout,
            v_start: None,
            is_ro: false,
        })
    }

    /// Take a new configuration (the file was changed): the exec commands, the
    /// default command (`editor` when none is set), the exit behavior and the
    /// colors; all else stays.
    pub fn set_config(&mut self, config: Config, editor: String)
        requires
            config.exec_ordered(),
        ensures
            match config.exec_config {
                None => final(self).commands is None,
                Some(c) => final(self).commands matches Some(m) && m@ == assoc_map(exec_entries(c@)),
            },
            final(self).default@ == match config.default {
                Some(d) => d@,
                None => editor@,
            },
            *final(self) == (State {
                commands: final(self).commands,
                default: final(self).default,
                match_vim_exit_behavior: config.match_vim_exit_behavior == Some(true),
                layout: Layout {
                    colors: match config.color {
                        Some(c) => c,
                        None => default_colors(),
                    },
                    ..old(self).layout
                },
                ..*old(self)
            }),
    {
        self.commands = to_extension_map(&config.exec_config);
        self.match_vim_exit_behavior = match config.match_vim_exit_behavior {
            Some(b) => b,
            None => false,
        };
        self.default = match config.default {
            Some(d) => d,
            None => editor,
        };
        self.layout.colors = match config.color {
            Some(c) => c,
            None => ConfigColor::default(),
        };
    }

    /// Select item that the cursor points to.
    pub fn get_item(&self) -> (r: Result<&ItemInfo, FxError>)
        ensures
            (self.layout.nums.index < self.list@.len()) <==> r is Ok,
            r matches Ok(item) ==> *item == self.list@[self.layout.nums.index as int],
            r matches Err(e) ==> e == FxError::GetItem,
    {
        if self.layout.nums.index < self.list.len() {
            Ok(&self.list[self.layout.nums.index])
        } else {
            Err(FxError::GetItem)
        }
    }

    /// Select item that the cursor points to, as mut.
    pub fn get_item_mut(&mut self) -> (r: Result<&mut ItemInfo, FxError>)
        ensures
            (old(self).layout.nums.index < old(self).list@.len()) <==> r is Ok,
            r matches Ok(item) ==> {
                &&& *item == old(self).list@[old(self).layout.nums.index as int]
                &&& final(self).list@ == old(self).list@.update(old(self).layout.nums.index as int, *final(item))
            },
            r matches Err(e) ==> e == FxError::GetItem && final(self).list@ == old(self).list@,
            final(self).layout == old(self).layout,
            final(self).registers == old(self).registers,
    {
        let i = self.layout.nums.index;
        if i < self.list.len() {
            Ok(&mut self.list[i])
        } else {
            Err(FxError::GetItem)
        }
    }

    /// The items shown in the list area, with the row each is printed on: those
    /// from `skip` on that fit between the first row and the status line.
    pub fn list_up(&self) -> (r: Vec<(u16, usize)>)
        requires
            self.layout.terminal_row + self.layout.nums.skip <= u16::MAX,
            self.layout.terminal_row + self.layout.nums.skip >= BEGINNING_ROW,
        ensures
            ({
                let start = self.layout.nums.skip as int;
                let end = self.layout.terminal_row + self.layout.nums.skip - BEGINNING_ROW;
                let stop = if end < self.list@.len() { end } else { self.list@.len() as int };
                &&& r@.len() == if stop > start { stop - start } else { 0 }
                &&& forall|k: int| 0 <= k < r@.len() ==> (#[trigger] r@[k]) == (
                    (k + BEGINNING_ROW) as u16,
                    (start + k) as usize,
                )
            }),
    {
        let skip = self.layout.nums.skip as usize;
        let end = (self.layout.terminal_row + self.layout.nums.skip - BEGINNING_ROW) as usize;
        let mut r: Vec<(u16, usize)> = Vec::new();
        let mut index = skip;
        while index < self.list.len() && index < end
            invariant
                skip == self.layout.nums.skip,
                end == self.layout.terminal_row + self.layout.nums.skip - BEGINNING_ROW,
                end + BEGINNING_ROW <= u16::MAX,
                skip <= index,
                index == skip || (index <= self.list@.len() && index <= end),
                r@.len() == index - skip,
                forall|k: int| 0 <= k < r@.len() ==> (#[trigger] r@[k]) == (
                    (k + BEGINNING_ROW) as u16,
                    (skip + k) as usize,
                ),
            decreases self.list@.len() - index,
        {
            let row = (index as u16 + BEGINNING_ROW) - self.layout.nums.skip;
            r.push((row, index));
            index = index + 1;
        }
        r
    }

    /// Change (only) the order of the list; the cursor is drawn on row `y`.
    pub fn reorder(&mut self, y: u16)
        ensures
            arranged(old(self).list@, old(self).layout.sort_by, old(self).layout.show_hidden, final(self).list@),
            final(self).layout == (Layout { y, ..old(self).layout }),
    {
        self.change_order();
        self.layout.y = y;
    }

    /// Add dest to register, and item infomation to operation
    pub fn yank_after_delete(
        &mut self,
        src: &[ItemBuffer],
        dest: &[ItemBuffer],
        reg: Option<char>,
        append: bool,
    ) -> (n: usize)
        requires
            old(self).registers.wf(),
        ensures
            n == dest@.len(),
            final(self).registers.wf(),
            final(self).list@ == old(self).list@,
            final(self).layout == old(self).layout,
            final(self).current_dir == old(self).current_dir,
            dest@.len() == 0 ==> {
                &&& final(self).registers == old(self).registers
                &&& final(self).operations == old(self).operations
            },
            dest@.len() > 0 ==> {
                &&& buffer_views(final(self).registers.unnamed@) == buffer_views(dest@)
                &&& final(self).registers.zero@ == old(self).registers.zero@
                &&& numbered_views(final(self).registers.numbered@) == seq![buffer_views(dest@)]
                    + numbered_views(old(self).registers.numbered@).take(
                    if old(self).registers.numbered@.len() == 9 { 8 } else { old(self).registers.numbered@.len() as int },
                )
                &&& named_views(final(self).registers.named@) == match reg {
                    None => named_views(old(self).registers.named@),
                    Some(c) => named_put(
                        named_views(old(self).registers.named@),
                        c,
                        match named_get(named_views(old(self).registers.named@), c) {
                            Some(before) => if append {
                                before + buffer_views(dest@)
                            } else {
                                buffer_views(dest@)
                            },
                            None => buffer_views(dest@),
                        },
                    ),
                }
                &&& final(self).operations.pos == 0
                &&& final(self).operations.op_list@.len() == kept(old(self).operations.op_list@, old(self).operations.pos as nat).len() + 1
                &&& final(self).operations.op_list@.drop_last() == kept(old(self).operations.op_list@, old(self).operations.pos as nat)
                &&& final(self).operations.op_list@.last() matches OpKind::Delete(d) && {
                    &&& buffer_views(d.trash@) == buffer_views(dest@)
                    &&& buffer_views(d.original@) == buffer_views(src@)
                    &&& d.dir@ == old(self).current_dir@
                }
            },
    {
        if dest.len() > 0 {
            self.registers.unnamed = copy_buffers(dest);
            if self.registers.numbered.len() == 9 {
                let _ = self.registers.numbered.pop_back();
            }
            let ghost before = numbered_views(self.registers.numbered@);
            self.registers.numbered.push_front(copy_buffers(dest));
            proof {
                assert(numbered_views(self.registers.numbered@) =~= seq![buffer_views(dest@)] + before);
                assert(before =~= numbered_views(old(self).registers.numbered@).take(
                    if old(self).registers.numbered@.len() == 9 { 8 } else { old(self).registers.numbered@.len() as int },
                ));
            }
            match reg {
                Some(c) => {
                    if append {
                        self.registers.append_item(dest, c);
                    } else {
                        let v = copy_buffers(dest);
                        self.registers.put_named(c, v);
                    }
                },
                None => {},
            }
            self.operations.branch();
            let d = DeletedFiles {
                trash: copy_buffers(dest),
                original: copy_buffers(src),
                dir: self.current_dir.clone(),
            };
            self.operations.push(OpKind::Delete(d));
        }
        dest.len()
    }
}


/// The buffers of the selected items of `list`, in order.
pub open spec fn selected_views(list: Seq<ItemInfo>) -> Seq<(FileType, Seq<char>, Seq<char>)>
    decreases list.len(),
{
    if list.len() == 0 {
        Seq::empty()
    } else if list.last().selected {
        selected_views(list.drop_last()).push((list.last().file_type, list.last().file_name@, list.last().file_path@))
    } else {
        selected_views(list.drop_last())
    }
}

impl State {
    /// The buffers of the selected items, in list order (what visual mode
    /// deletes or yanks).
    pub fn selected_buffers(&self) -> (r: Vec<ItemBuffer>)
        ensures
            buffer_views(r@) == selected_views(self.list@),
    {
        let mut r: Vec<ItemBuffer> = Vec::new();
        let mut i: usize = 0;
        while i < self.list.len()
            invariant
                i <= self.list@.len(),
                buffer_views(r@) == selected_views(self.list@.take(i as int)),
            decreases self.list@.len() - i,
        {
            proof {
                assert(self.list@.take(i + 1).drop_last() =~= self.list@.take(i as int));
                assert(self.list@.take(i + 1).last() == self.list@[i as int]);
            }
            if self.list[i].selected {
                let ghost before = buffer_views(r@);
                let b = ItemBuffer::new(&self.list[i]);
                r.push(b);
                proof {
                    assert(buffer_views(r@) =~= before.push(b@));
                }
            }
            i = i + 1;
        }
        proof {
            assert(self.list@.take(self.list@.len() as int) =~= self.list@);
        }
        r
    }
}


impl State {
    /// The headline: a space and the current directory (shortened to the
    /// width when its UTF-8 encoding does not fit in `terminal_column - 1`
    /// bytes); whether ` [RO]` follows (read-only, with room for it); and the
    /// room left for the git branch (none when the path was shortened).
    pub fn headline(&self) -> (r: (String, bool, Option<usize>))
        requires
            self.layout.terminal_column >= 1,
        ensures
            ({
                let space = self.layout.terminal_column - 1;
                let n = encode_utf8(self.current_dir@).len();
                if n >= space {
                    &&& r.0@ == seq![' '] + shorten_from(Seq::empty(), self.current_dir@, space as nat)
                    &&& !r.1
                    &&& r.2 is None
                } else {
                    let left = space - n;
                    &&& r.0@ == seq![' '] + self.current_dir@
                    &&& r.1 == (self.is_ro && left > 5)
                    &&& r.2 == Some((if r.1 { left - 5 } else { left }) as usize)
                }
            }),
    {
        let space = (self.layout.terminal_column - 1) as usize;
        let n = self.current_dir.as_str().as_bytes().len();
        let mut text = String::new();
        push_char(&mut text, ' ');
        if n >= space {
            let short = shorten_str_including_wide_char(self.current_dir.as_str(), space);
            push_str(&mut text, short.as_str());
            (text, false, None)
        } else {
            push_str(&mut text, self.current_dir.as_str());
            let left = space - n;
            if self.is_ro && left > 5 {
                (text, true, Some(left - 5))
            } else {
                (text, false, Some(left))
            }
        }
    }
}

/// Whether item `i` of `list` has a name in which `kw` occurs.
pub open spec fn is_match(list: Seq<ItemInfo>, kw: Seq<char>, i: int) -> bool {
    0 <= i < list.len() && has_substring(list[i].file_name@, kw)
}

impl State {
    /// Go to the next item (after the cursor) whose name contains the keyword;
    /// it is shown at the top. Returns whether there was one.
    pub fn search_next(&mut self) -> (found: bool)
        requires
            old(self).layout.nums.index < usize::MAX,
        ensures
            final(self).list@ == old(self).list@,
            final(self).keyword == old(self).keyword,
            *final(self) == (State { layout: final(self).layout, ..*old(self) }),
            !found ==> *final(self) == *old(self),
            match old(self).keyword {
                None => !found && final(self).layout == old(self).layout,
                Some(kw) => {
                    let from = old(self).layout.nums.index as int;
                    &&& found == exists|j: int| from < j && #[trigger] is_match(old(self).list@, kw@, j)
                    &&& !found ==> final(self).layout == old(self).layout
                    &&& found ==> {
                        let i = final(self).layout.nums.index as int;
                        &&& from < i
                        &&& is_match(old(self).list@, kw@, i)
                        &&& forall|j: int| from < j < i ==> !#[trigger] is_match(old(self).list@, kw@, j)
                        &&& final(self).layout == (Layout {
                            nums: Num { index: i as usize, skip: #[verifier::truncate] (i as u16) },
                            y: BEGINNING_ROW,
                            ..old(self).layout
                        })
                    }
                },
            },
    {
        let kw = match &self.keyword {
            Some(k) => k.clone(),
            None => {
                return false;
            },
        };
        let mut i = self.layout.nums.index + 1;
        while i < self.list.len()
            invariant
                self.keyword matches Some(k) && kw@ == k@,
                *self == *old(self),
                self.layout.nums.index < i,
                forall|j: int| self.layout.nums.index < j < i ==> !#[trigger] is_match(self.list@, kw@, j),
            decreases self.list@.len() - i,
        {
            if text_contains(self.list[i].file_name.as_str(), kw.as_str()) {
                assert(is_match(self.list@, kw@, i as int));
                self.layout.nums.skip = #[verifier::truncate] (i as u16);
                self.layout.nums.index = i;
                self.layout.y = BEGINNING_ROW;
                return true;
            }
            i = i + 1;
        }
        false
    }

    /// Go to the previous item (before the cursor) whose name contains the
    /// keyword; it is shown at the top. Returns whether there was one.
    pub fn search_prev(&mut self) -> (found: bool)
        ensures
            final(self).list@ == old(self).list@,
            final(self).keyword == old(self).keyword,
            *final(self) == (State { layout: final(self).layout, ..*old(self) }),
            !found ==> *final(self) == *old(self),
            match old(self).keyword {
                None => !found && final(self).layout == old(self).layout,
                Some(kw) => {
                    let to = old(self).layout.nums.index as int;
                    &&& found == exists|j: int| j < to && #[trigger] is_match(old(self).list@, kw@, j)
                    &&& !found ==> final(self).layout == old(self).layout
                    &&& found ==> {
                        let i = final(self).layout.nums.index as int;
                        &&& i < to
                        &&& is_match(old(self).list@, kw@, i)
                        &&& forall|j: int| i < j < to ==> !#[trigger] is_match(old(self).list@, kw@, j)
                        &&& final(self).layout == (Layout {
                            nums: Num { index: i as usize, skip: #[verifier::truncate] (i as u16) },
                            y: BEGINNING_ROW,
                            ..old(self).layout
                        })
                    }
                },
            },
    {
        let kw = match &self.keyword {
            Some(k) => k.clone(),
            None => {
                return false;
            },
        };
        let to = self.layout.nums.index;
        let mut i = if to < self.list.len() { to } else { self.list.len() };
        while i > 0
            invariant
                self.keyword matches Some(k) && kw@ == k@,
                *self == *old(self),
                to == self.layout.nums.index,
                i <= to,
                i <= self.list@.len(),
                forall|j: int| i <= j < to ==> !#[trigger] is_match(self.list@, kw@, j),
            decreases i,
        {
            if text_contains(self.list[i - 1].file_name.as_str(), kw.as_str()) {
                assert(is_match(self.list@, kw@, i - 1));
                self.layout.nums.skip = #[verifier::truncate] ((i - 1) as u16);
                self.layout.nums.index = i - 1;
                self.layout.y = BEGINNING_ROW;
                return true;
            }
            i = i - 1;
        }
        false
    }
}

/// `list` with each item's `selected` flag set by `sel`, all else unchanged.
pub open spec fn selection_set(old_list: Seq<ItemInfo>, new_list: Seq<ItemInfo>, sel: spec_fn(int) -> bool) -> bool {
    &&& new_list.len() == old_list.len()
    &&& forall|i: int| 0 <= i < new_list.len() ==> (#[trigger] new_list[i]) == (ItemInfo { selected: sel(i), ..old_list[i] })
}

impl State {
    /// Reset all item's selected state and exit the select mode.
    pub fn reset_selection(&mut self)
        ensures
            selection_set(old(self).list@, final(self).list@, |i: int| false),
            final(self).v_start is None,
            final(self).layout == old(self).layout,
            final(self).registers == old(self).registers,
            final(self).keyword == old(self).keyword,
            *final(self) == (State { list: final(self).list, v_start: None, ..*old(self) }),
    {
        let mut i: usize = 0;
        while i < self.list.len()
            invariant
                i <= self.list@.len(),
                self.list@.len() == old(self).list@.len(),
                self.layout == old(self).layout,
                self.registers == old(self).registers,
                self.keyword == old(self).keyword,
                *self == (State { list: self.list, ..*old(self) }),
                forall|j: int| 0 <= j < i ==> (#[trigger] self.list@[j]) == (ItemInfo { selected: false, ..old(self).list@[j] }),
                forall|j: int| i <= j < self.list@.len() ==> (#[trigger] self.list@[j]) == old(self).list@[j],
            decreases self.list@.len() - i,
        {
            self.list[i].selected = false;
            i = i + 1;
        }
        self.v_start = None;
    }

    /// Highlight matched items.
    pub fn highlight_matches(&mut self, keyword: &str)
        ensures
            final(self).list@.len() == old(self).list@.len(),
            forall|i: int| 0 <= i < final(self).list@.len() ==> (#[trigger] final(self).list@[i]) == (ItemInfo {
                matches: has_substring(old(self).list@[i].file_name@, keyword@),
                ..old(self).list@[i]
            }),
            final(self).layout == old(self).layout,
            final(self).registers == old(self).registers,
            final(self).v_start == old(self).v_start,
    {
        let mut i: usize = 0;
        while i < self.list.len()
            invariant
                i <= self.list@.len(),
                self.list@.len() == old(self).list@.len(),
                self.layout == old(self).layout,
                self.registers == old(self).registers,
                self.v_start == old(self).v_start,
                forall|j: int| 0 <= j < i ==> (#[trigger] self.list@[j]) == (ItemInfo {
                    matches: has_substring(old(self).list@[j].file_name@, keyword@),
                    ..old(self).list@[j]
                }),
                forall|j: int| i <= j < self.list@.len() ==> (#[trigger] self.list@[j]) == old(self).list@[j],
            decreases self.list@.len() - i,
        {
            let m = text_contains(self.list[i].file_name.as_str(), keyword);
            self.list[i].matches = m;
            i = i + 1;
        }
    }

    /// Select items from the top to current position.
    pub fn select_from_top(&mut self, start_pos: usize)
        ensures
            selection_set(old(self).list@, final(self).list@, |i: int| i <= start_pos),
            final(self).layout == old(self).layout,
            final(self).v_start == old(self).v_start,
            *final(self) == (State { list: final(self).list, ..*old(self) }),
    {
        let mut i: usize = 0;
        while i < self.list.len()
            invariant
                i <= self.list@.len(),
                self.list@.len() == old(self).list@.len(),
                self.layout == old(self).layout,
                self.v_start == old(self).v_start,
                *self == (State { list: self.list, ..*old(self) }),
                forall|j: int| 0 <= j < i ==> (#[trigger] self.list@[j]) == (ItemInfo { selected: j <= start_pos, ..old(self).list@[j] }),
                forall|j: int| i <= j < self.list@.len() ==> (#[trigger] self.list@[j]) == old(self).list@[j],
            decreases self.list@.len() - i,
        {
            self.list[i].selected = i <= start_pos;
            i = i + 1;
        }
    }

    /// Select items from the current position to bottom.
    pub fn select_to_bottom(&mut self, start_pos: usize)
        ensures
            selection_set(old(self).list@, final(self).list@, |i: int| i >= start_pos),
            final(self).layout == old(self).layout,
            final(self).v_start == old(self).v_start,
            *final(self) == (State { list: final(self).list, ..*old(self) }),
    {
        let mut i: usize = 0;
        while i < self.list.len()
            invariant
                i <= self.list@.len(),
                self.list@.len() == old(self).list@.len(),
                self.layout == old(self).layout,
                self.v_start == old(self).v_start,
                *self == (State { list: self.list, ..*old(self) }),
                forall|j: int| 0 <= j < i ==> (#[trigger] self.list@[j]) == (ItemInfo { selected: j >= start_pos, ..old(self).list@[j] }),
                forall|j: int| i <= j < self.list@.len() ==> (#[trigger] self.list@[j]) == old(self).list@[j],
            decreases self.list@.len() - i,
        {
            self.list[i].selected = i >= start_pos;
            i = i + 1;
        }
    }
}

/// Two name lists with the same views contain the same names, and so leave
/// the same first free candidate.
proof fn lemma_same_names(a: Seq<String>, b: Seq<String>)
    requires
        a.len() == b.len(),
        forall|j: int| 0 <= j < a.len() ==> (#[trigger] a[j])@ == b[j]@,
    ensures
        forall|cand: spec_fn(nat) -> Seq<char>, r: Seq<char>|
            #[trigger] is_first_free(a, cand, r) == is_first_free(b, cand, r),
{
    assert forall|t: Seq<char>| names_contain(a, t) == names_contain(b, t) by {
        if names_contain(a, t) {
            let i = choose|i: int| 0 <= i < a.len() && (#[trigger] a[i])@ == t;
            assert(b[i]@ == t);
        }
        if names_contain(b, t) {
            let i = choose|i: int| 0 <= i < b.len() && (#[trigger] b[i])@ == t;
            assert(a[i]@ == t);
        }
    }
}

/// The number of items of `list` whose name contains `kw`.
pub fn count_matches(list: &[ItemInfo], kw: &str) -> (n: usize)
    ensures
        n == match_count(list@, kw@),
{
    let mut n: usize = 0;
    let mut i: usize = 0;
    while i < list.len()
        invariant
            i <= list@.len(),
            n == match_count(list@.take(i as int), kw@),
            n <= i,
        decreases list@.len() - i,
    {
        proof {
            assert(list@.take(i + 1).drop_last() =~= list@.take(i as int));
            assert(list@.take(i + 1).last() == list@[i as int]);
        }
        if text_contains(list[i].file_name.as_str(), kw) {
            n = n + 1;
        }
        i = i + 1;
    }
    proof {
        assert(list@.take(list@.len() as int) =~= list@);
    }
    n
}

impl State {
    /// Return footer string.
    pub fn make_footer(&self, item: &ItemInfo) -> (r: String)
        requires
            self.layout.nums.index < usize::MAX,
        ensures
            r@ == take_chars(
                spec_footer(self.layout.nums.index as nat, self.list@.len(), *item),
                self.layout.terminal_column as nat,
            ),
    {
        let mut footer = String::new();
        push_char(&mut footer, ' ');
        push_decimal(&mut footer, (self.layout.nums.index + 1) as u64);
        push_char(&mut footer, '/');
        push_decimal(&mut footer, self.list.len() as u64);
        match &item.file_ext {
            Some(ext) => {
                push_char(&mut footer, ' ');
                push_str(&mut footer, ext.as_str());
            },
            None => {},
        }
        push_char(&mut footer, ' ');
        let size = to_proper_size(item.file_size);
        push_str(&mut footer, size.as_str());
        match item.permissions {
            Some(p) => {
                push_char(&mut footer, ' ');
                let perms = convert_to_permissions(p);
                push_str(&mut footer, perms.as_str());
            },
            None => {},
        }
        proof {
            assert(footer@ =~= spec_footer(self.layout.nums.index as nat, self.list@.len(), *item));
        }
        let n = self.layout.terminal_column as usize;
        let len = footer.as_str().unicode_len();
        if len <= n {
            footer
        } else {
            let mut r = String::new();
            push_str(&mut r, footer.as_str().substring_char(0, n));
            proof {
                assert(r@ =~= footer@.take(n as int));
            }
            r
        }
    }

    /// The text of the footer: the searched keyword and its matches while a
    /// keyword is set, otherwise the information of the item under the cursor
    /// (nothing when there is none).
    pub fn footer_text(&self) -> (r: Option<String>)
        requires
            self.layout.nums.index < usize::MAX,
        ensures
            match self.keyword {
                Some(kw) => r matches Some(t) && t@ == spec_keyword_footer(kw@, match_count(self.list@, kw@)),
                None => if self.layout.nums.index < self.list@.len() {
                    r matches Some(t) && t@ == take_chars(
                        spec_footer(self.layout.nums.index as nat, self.list@.len(), self.list@[self.layout.nums.index as int]),
                        self.layout.terminal_column as nat,
                    )
                } else {
                    r is None
                },
            },
    {
        match &self.keyword {
            Some(kw) => {
                let count = count_matches(self.list.as_slice(), kw.as_str());
                let mut t = String::new();
                push_char(&mut t, ' ');
                push_char(&mut t, '/');
                push_str(&mut t, kw.as_str());
                push_char(&mut t, ' ');
                push_char(&mut t, '-');
                push_char(&mut t, ' ');
                push_decimal(&mut t, count as u64);
                push_char(&mut t, ' ');
                push_char(&mut t, 'm');
                push_char(&mut t, 'a');
                push_char(&mut t, 't');
                push_char(&mut t, 'c');
                push_char(&mut t, 'h');
                if count > 1 {
                    push_char(&mut t, 'e');
                    push_char(&mut t, 's');
                }
                proof {
                    assert(t@ =~= spec_keyword_footer(kw@, match_count(self.list@, kw@)));
                }
                Some(t)
            },
            None => {
                match self.get_item() {
                    Ok(item) => Some(self.make_footer(item)),
                    Err(_) => None,
                }
            },
        }
    }

    /// Check if the cursor is out of bounds.
    pub fn is_out_of_bounds(&self) -> (b: bool)
        requires
            self.layout.y >= BEGINNING_ROW,
            self.layout.nums.skip + self.layout.y <= u16::MAX,
        ensures
            b == (self.layout.nums.skip + self.layout.y - BEGINNING_ROW + 1 > self.list@.len()),
    {
        let current = self.layout.nums.skip + self.layout.y - BEGINNING_ROW + 1;
        current as usize > self.list.len()
    }

    /// Scroll down previewed text: the item under the cursor shows its text
    /// one line further. Returns whether there is such an item (and so the
    /// preview is to be printed again).
    pub fn scroll_down_preview(&mut self) -> (b: bool)
        requires
            old(self).layout.nums.index < old(self).list@.len() ==>
                old(self).list@[old(self).layout.nums.index as int].preview_scroll < usize::MAX,
        ensures
            b == (old(self).layout.nums.index < old(self).list@.len()),
            final(self).layout == old(self).layout,
            b ==> final(self).list@ == old(self).list@.update(
                old(self).layout.nums.index as int,
                ItemInfo {
                    preview_scroll: (old(self).list@[old(self).layout.nums.index as int].preview_scroll + 1) as usize,
                    ..old(self).list@[old(self).layout.nums.index as int]
                },
            ),
            !b ==> *final(self) == *old(self),
            *final(self) == (State { list: final(self).list, ..*old(self) }),
    {
        let i = self.layout.nums.index;
        if i < self.list.len() {
            let s = self.list[i].preview_scroll;
            self.list[i].preview_scroll = s + 1;
            proof {
                assert(self.list@ =~= old(self).list@.update(
                    i as int,
                    ItemInfo { preview_scroll: (s + 1) as usize, ..old(self).list@[i as int] },
                ));
            }
            true
        } else {
            false
        }
    }

    /// Scroll up previewed text. Returns whether the item under the cursor was
    /// scrolled (it is not at the top of its text).
    pub fn scroll_up_preview(&mut self) -> (b: bool)
        ensures
            b == (old(self).layout.nums.index < old(self).list@.len()
                && old(self).list@[old(self).layout.nums.index as int].preview_scroll != 0),
            final(self).layout == old(self).layout,
            b ==> final(self).list@ == old(self).list@.update(
                old(self).layout.nums.index as int,
                ItemInfo {
                    preview_scroll: (old(self).list@[old(self).layout.nums.index as int].preview_scroll - 1) as usize,
                    ..old(self).list@[old(self).layout.nums.index as int]
                },
            ),
            !b ==> *final(self) == *old(self),
            *final(self) == (State { list: final(self).list, ..*old(self) }),
    {
        let i = self.layout.nums.index;
        if i < self.list.len() {
            let s = self.list[i].preview_scroll;
            if s != 0 {
                self.list[i].preview_scroll = s - 1;
                proof {
                    assert(self.list@ =~= old(self).list@.update(
                        i as int,
                        ItemInfo { preview_scroll: (s - 1) as usize, ..old(self).list@[i as int] },
                    ));
                }
                return true;
            }
        }
        false
    }

    /// Reload the app layout when terminal size changes: the list gets
    /// `column` x `row` cells of a terminal of `terminal` cells. Returns the
    /// row the cursor is drawn on.
    pub fn refresh(&mut self, column: u16, row: u16, cursor_pos: u16, terminal: (u16, u16)) -> (y: u16)
        requires
            2 <= column <= u16::MAX - 2,
            1 <= row <= u16::MAX - 2,
            old(self).layout.side == Side::Preview || old(self).layout.side == Side::Reg ==> match old(self).layout.split {
                Split::Vertical => terminal.0 >= column + 1 && row >= BEGINNING_ROW,
                Split::Horizontal => terminal.1 >= row + 1,
            },
            cursor_pos > row - 1 ==> old(self).layout.nums.index >= cursor_pos - row + 1,
        ensures
            final(self).layout == (Layout {
                terminal_row: row,
                terminal_column: column,
                preview_start: match old(self).layout.split {
                    Split::Vertical => ((column + 2) as u16, BEGINNING_ROW),
                    Split::Horizontal => (1u16, (row + 2) as u16),
                },
                preview_space: if old(self).layout.side == Side::Preview || old(self).layout.side == Side::Reg {
                    match old(self).layout.split {
                        Split::Vertical => ((terminal.0 - column - 1) as u16, (row - BEGINNING_ROW) as u16),
                        Split::Horizontal => (column, (terminal.1 - row - 1) as u16),
                    }
                } else {
                    (0u16, 0u16)
                },
                time_start_pos: spec_make_layout(column as int).0 as u16,
                name_max_len: spec_make_layout(column as int).1 as usize,
                nums: Num {
                    index: if cursor_pos > row - 1 {
                        (old(self).layout.nums.index - (cursor_pos - row + 1)) as usize
                    } else {
                        old(self).layout.nums.index
                    },
                    skip: old(self).layout.nums.skip,
                },
                ..old(self).layout
            }),
            y == if cursor_pos > row - 1 { (row - 1) as u16 } else { cursor_pos },
            final(self).list@ == old(self).list@,
    {
        let (time_start, name_max) = make_layout(column);
        self.layout.terminal_row = row;
        self.layout.terminal_column = column;
        self.layout.preview_start = match self.layout.split {
            Split::Vertical => (column + 2, BEGINNING_ROW),
            Split::Horizontal => (1, row + 2),
        };
        self.layout.preview_space = if self.layout.is_preview() || self.layout.is_reg() {
            match self.layout.split {
                Split::Vertical => (terminal.0 - column - 1, row - BEGINNING_ROW),
                Split::Horizontal => (column, terminal.1 - row - 1),
            }
        } else {
            (0, 0)
        };
        self.layout.name_max_len = name_max;
        self.layout.time_start_pos = time_start;
        let mut y = cursor_pos;
        if cursor_pos > row - 1 {
            self.layout.nums.index = self.layout.nums.index - (cursor_pos - row + 1) as usize;
            y = row - 1;
        }
        y
    }

    /// Whether items may be moved to the trash from the current directory: not
    /// from the trash directory itself, whose items are deleted by `:empty`.
    pub fn may_trash(&self) -> (r: Result<(), FxError>)
        ensures
            r is Ok <==> self.current_dir@ != self.trash_dir@,
            r matches Err(e) ==> (e matches FxError::Io(m) && m@ == "Use `:empty` to delete item in the trash dir."@),
    {
        if crate::keymap::str_eq(self.current_dir.as_str(), self.trash_dir.as_str()) {
            Err(FxError::Io(String::from_str("Use `:empty` to delete item in the trash dir.")))
        } else {
            Ok(())
        }
    }

    /// The archive under the cursor and where it is unpacked: a directory of
    /// the current one, named after the archive so that no item of the list
    /// has that name.
    pub fn unpack(&self) -> (r: Result<(String, String), FxError>)
        requires
            self.list@.len() < usize::MAX,
        ensures
            (self.layout.nums.index < self.list@.len()) <==> r is Ok,
            r matches Err(e) ==> e == FxError::GetItem,
            r matches Ok((src, dest)) ==> {
                let item = self.list@[self.layout.nums.index as int];
                &&& src@ == item.file_path@
                &&& exists|name: Seq<char>| {
                    &&& is_first_free(self.list@.map_values(|i: ItemInfo| i.file_name), |k: nat| dir_candidate(item.file_name@, k), name)
                    &&& dest@ == path_join(self.current_dir@, name)
                }
            },
    {
        let item = match self.get_item() {
            Ok(item) => item,
            Err(e) => {
                return Err(e);
            },
        };
        let mut names: Vec<String> = Vec::new();
        let mut i: usize = 0;
        while i < self.list.len()
            invariant
                i <= self.list@.len(),
                names@.len() == i,
                forall|j: int| 0 <= j < i ==> (#[trigger] names@[j])@ == self.list@[j].file_name@,
            decreases self.list@.len() - i,
        {
            names.push(self.list[i].file_name.clone());
            i = i + 1;
        }
        proof {
            lemma_same_names(names@, self.list@.map_values(|i: ItemInfo| i.file_name));
        }
        let dest_name = rename_dir(item.file_name.as_str(), names.as_slice());
        let mut dest = self.current_dir.clone();
        let n = dest.as_str().unicode_len();
        if n > 0 && dest.as_str().get_char(n - 1) != '/' {
            push_char(&mut dest, '/');
        }
        push_str(&mut dest, dest_name.as_str());
        proof {
            assert(dest@ =~= path_join(self.current_dir@, dest_name@));
        }
        Ok((item.file_path.clone(), dest))
    }
}

/// The items with those whose path is one of `dirty` marked dirty.
pub open spec fn mark_dirty(s: Seq<ItemInfo>, dirty: Seq<String>) -> Seq<ItemInfo> {
    s.map_values(|i: ItemInfo| if names_contain(dirty, i.file_path@) {
        ItemInfo { is_dirty: true, ..i }
    } else {
        i
    })
}

/// The listing that `arrange` makes of `items` for the layout's sort key and
/// hidden-item setting.
pub open spec fn arranged(items: Seq<ItemInfo>, sort_by: SortKey, show_hidden: bool, r: Seq<ItemInfo>) -> bool {
    match sort_by {
        SortKey::Time => r == visible(
            sort_by_time(dirs_of(items)) + sort_by_time(files_of(items)),
            show_hidden,
        ),
        SortKey::Name => exists|d: Seq<ItemInfo>, f: Seq<ItemInfo>|
            {
                &&& sorted_by_name(dirs_of(items), d)
                &&& sorted_by_name(files_of(items), f)
                &&& r == visible(d + f, show_hidden)
            },
    }
}

/// The listing puts every directory before every other item, and shows no
/// hidden item unless hidden items are shown; it holds the same number of
/// items as the entries when hidden items are shown; sorted by time, the
/// directories and the other items each come newest first.
pub proof fn law_listing_order(items: Seq<ItemInfo>, sort_by: SortKey, show_hidden: bool, r: Seq<ItemInfo>)
    requires
        arranged(items, sort_by, show_hidden, r),
    ensures
        forall|i: int, j: int| 0 <= i < j < r.len() && is_dir(#[trigger] r[j]) ==> is_dir(#[trigger] r[i]),
        !show_hidden ==> forall|i: int| 0 <= i < r.len() ==> !(#[trigger] r[i]).is_hidden,
        show_hidden ==> r.len() == items.len(),
        sort_by == SortKey::Time ==> forall|i: int, j: int|
            0 <= i < j < r.len() && is_dir(#[trigger] r[i]) == is_dir(#[trigger] r[j]) ==> not_older(r[i], r[j]),
{
    if sort_by == SortKey::Time {
        lemma_time_listing(items, show_hidden);
    }
    broadcast use vstd::seq_lib::group_to_multiset_ensures;
    let (d, f) = match sort_by {
        SortKey::Time => {
            lemma_sort_by_time_multiset(dirs_of(items));
            lemma_sort_by_time_multiset(files_of(items));
            (sort_by_time(dirs_of(items)), sort_by_time(files_of(items)))
        },
        SortKey::Name => {
            choose|d: Seq<ItemInfo>, f: Seq<ItemInfo>|
                {
                    &&& sorted_by_name(dirs_of(items), d)
                    &&& sorted_by_name(files_of(items), f)
                    &&& r == visible(d + f, show_hidden)
                }
        },
    };
    lemma_listing_order(items, d, f, show_hidden);
    if show_hidden {
        lemma_partition_len(items);
        assert(d.len() == d.to_multiset().len());
        assert(f.len() == f.to_multiset().len());
        assert(dirs_of(items).len() == dirs_of(items).to_multiset().len());
        assert(files_of(items).len() == files_of(items).to_multiset().len());
    }
}

impl State {
    /// Change the order of the list without re-reading all the items.
    pub fn change_order(&mut self)
        ensures
            arranged(old(self).list@, old(self).layout.sort_by, old(self).layout.show_hidden, final(self).list@),
            final(self).layout == old(self).layout,
            *final(self) == (State { list: final(self).list, ..*old(self) }),
    {
        let mut list: Vec<ItemInfo> = Vec::new();
        std::mem::swap(&mut list, &mut self.list);
        self.list = arrange(list, self.layout.sort_by, self.layout.show_hidden);
    }

    /// Update state's list of items from the entries read from the current
    /// directory and the paths that version control reports as changed.
    pub fn update_list(&mut self, entries: Vec<ItemInfo>, dirty_paths: &[String])
        ensures
            arranged(mark_dirty(entries@, dirty_paths@), old(self).layout.sort_by, old(self).layout.show_hidden, final(self).list@),
            final(self).layout == old(self).layout,
    {
        let mut entries = entries;
        let ghost orig = entries@;
        let mut i: usize = 0;
        while i < entries.len()
            invariant
                i <= entries@.len(),
                entries@.len() == orig.len(),
                forall|j: int| 0 <= j < i ==> (#[trigger] entries@[j]) == mark_dirty(orig, dirty_paths@)[j],
                forall|j: int| i <= j < entries@.len() ==> (#[trigger] entries@[j]) == orig[j],
            decreases entries@.len() - i,
        {
            let path = entries[i].file_path.clone();
            if crate::functions::contains_name(dirty_paths, &path) {
                entries[i].is_dirty = true;
            }
            i = i + 1;
        }
        proof {
            assert(entries@ =~= mark_dirty(orig, dirty_paths@));
        }
        self.list = arrange(entries, self.layout.sort_by, self.layout.show_hidden);
    }
}

/// The last component of `p` that is neither empty nor `.`, reading backwards
/// from its end; `acc` holds the characters of the component being read.
pub open spec fn last_component(p: Seq<char>, acc: Seq<char>) -> Option<Seq<char>>
    decreases p.len(),
{
    if p.len() == 0 {
        if acc.len() > 0 && acc != seq!['.'] { Some(acc) } else { None }
    } else if p.last() == '/' {
        if acc.len() > 0 && acc != seq!['.'] {
            Some(acc)
        } else {
            last_component(p.drop_last(), Seq::empty())
        }
    } else {
        last_component(p.drop_last(), seq![p.last()] + acc)
    }
}

/// The final component of a Unix path, as `Path::file_name` gives it:
/// repeated separators, a trailing separator and `.` components are passed
/// over; there is none for a root, an empty path or `.`, and none when the
/// path ends in `..`.
pub open spec fn path_file_name(p: Seq<char>) -> Option<Seq<char>> {
    match last_component(p, Seq::empty()) {
        Some(n) => if n == seq!['.', '.'] { None } else { Some(n) },
        None => None,
    }
}

/// `Path::file_name`, on Unix paths: the final component, as `path_file_name`
/// states it from the documentation of `Path::components` and `Path::file_name`.
#[verifier::external_body]
fn file_name_of(p: &str) -> (r: Option<String>)
    ensures
        match r {
            Some(n) => path_file_name(p@) == Some(n@),
            None => path_file_name(p@) is None,
        },
{
    std::path::Path::new(p).file_name().and_then(|s| s.to_str()).map(|s| s.to_string())
}

/// The memo of the current directory and cursor.
pub open spec fn memo_of(st: State) -> (Seq<char>, Num, u16) {
    (st.current_dir@, st.layout.nums, st.layout.y)
}

/// The views of memos.
pub open spec fn memo_views(s: Seq<StateMemo>) -> Seq<(Seq<char>, Num, u16)> {
    s.map_values(|m: StateMemo| (m.path@, m.num, m.cursor_pos))
}

/// The index of the first item named `name` in `names`, or the length when there is none.
pub open spec fn first_named(names: Seq<Seq<char>>, name: Seq<char>) -> int
    decreases names.len(),
{
    if names.len() == 0 {
        0
    } else if names[0] == name {
        0
    } else {
        1 + first_named(names.drop_first(), name)
    }
}

impl State {
    /// Change the directory to `p` (the caller has entered it already): record
    /// it in the jump list, remember or restore cursor positions, and say how
    /// to place the cursor once the directory is listed. Going up restores the
    /// position kept when the parent was left, else puts the cursor on the
    /// directory just left; going down restores the position kept when the
    /// child was left, if that is where we go; jumps and lists start at the top.
    pub fn chdir(&mut self, p: &str, mv: Move) -> (plan: CursorPlan)
        ensures
            final(self).keyword is None,
            final(self).v_start is None,
            final(self).list@ == old(self).list@,
            final(self).registers == old(self).registers,
            mv != Move::List ==> {
                &&& final(self).jumplist.pos == 0
                &&& final(self).jumplist.list@.len() >= 1
                &&& final(self).jumplist.list@[0]@ == p@
                &&& final(self).jumplist.list@.skip(1) == old(self).jumplist.list@.skip(
                    if old(self).jumplist.pos <= old(self).jumplist.list@.len() {
                        old(self).jumplist.pos as int
                    } else {
                        old(self).jumplist.list@.len() as int
                    },
                )
            },
            mv == Move::List ==> final(self).jumplist == old(self).jumplist,
            match mv {
                Move::Up => {
                    &&& memo_views(final(self).c_memo@) == memo_views(old(self).c_memo@).push(memo_of(*old(self)))
                    &&& if old(self).p_memo@.len() > 0 {
                        let m = old(self).p_memo@.last();
                        &&& memo_views(final(self).p_memo@) == memo_views(old(self).p_memo@.drop_last())
                        &&& final(self).current_dir@ == m.path@
                        &&& final(self).layout.nums == m.num
                        &&& plan matches CursorPlan::Restore(y) && y == m.cursor_pos
                    } else {
                        &&& final(self).p_memo@.len() == 0
                        &&& final(self).current_dir@ == p@
                        &&& final(self).layout.nums == old(self).layout.nums
                        &&& plan matches CursorPlan::OnName(n) && match n {
                            Some(n) => path_file_name(old(self).current_dir@) == Some(n@),
                            None => path_file_name(old(self).current_dir@) is None,
                        }
                    }
                },
                Move::Down => {
                    &&& memo_views(final(self).p_memo@) == memo_views(old(self).p_memo@).push(memo_of(*old(self)))
                    &&& final(self).current_dir@ == p@
                    &&& memo_views(final(self).c_memo@) == if old(self).c_memo@.len() > 0 {
                        memo_views(old(self).c_memo@.drop_last())
                    } else {
                        Seq::empty()
                    }
                    &&& if old(self).c_memo@.len() > 0 && old(self).c_memo@.last().path@ == p@ {
                        &&& final(self).layout.nums == old(self).c_memo@.last().num
                        &&& plan matches CursorPlan::Restore(y) && y == old(self).c_memo@.last().cursor_pos
                    } else {
                        &&& final(self).layout.nums == Num { index: 0, skip: 0 }
                        &&& plan is Top
                    }
                },
                _ => {
                    &&& final(self).current_dir@ == p@
                    &&& final(self).c_memo@.len() == 0
                    &&& final(self).p_memo@.len() == 0
                    &&& final(self).layout.nums == Num { index: 0, skip: 0 }
                    &&& plan is Top
                },
            },
    {
        let plan;
        match mv {
            Move::Up => {
                self.jumplist.add(p);
                let memo = StateMemo {
                    path: self.current_dir.clone(),
                    num: self.layout.nums,
                    cursor_pos: self.layout.y,
                };
                let ghost before_c = memo_views(self.c_memo@);
                self.c_memo.push(memo);
                proof {
                    assert(memo_views(self.c_memo@) =~= before_c.push(memo_of(*old(self))));
                }
                let ghost before_p = self.p_memo@;
                match self.p_memo.pop() {
                    Some(memo) => {
                        proof {
                            assert(memo_views(self.p_memo@) =~= memo_views(before_p.drop_last()));
                        }
                        self.current_dir = memo.path;
                        self.keyword = None;
                        self.layout.nums.index = memo.num.index;
                        self.layout.nums.skip = memo.num.skip;
                        plan = CursorPlan::Restore(memo.cursor_pos);
                    },
                    None => {
                        let name = file_name_of(self.current_dir.as_str());
                        self.current_dir = String::from_str(p);
                        self.keyword = None;
                        plan = CursorPlan::OnName(name);
                    },
                }
            },
            Move::Down => {
                self.jumplist.add(p);
                let memo = StateMemo {
                    path: self.current_dir.clone(),
                    num: self.layout.nums,
                    cursor_pos: self.layout.y,
                };
                let ghost before_p = memo_views(self.p_memo@);
                self.p_memo.push(memo);
                proof {
                    assert(memo_views(self.p_memo@) =~= before_p.push(memo_of(*old(self))));
                }
                self.current_dir = String::from_str(p);
                self.keyword = None;
                let ghost before_c = self.c_memo@;
                match self.c_memo.pop() {
                    Some(memo) => {
                        proof {
                            assert(memo_views(self.c_memo@) =~= memo_views(before_c.drop_last()));
                        }
                        if crate::keymap::str_eq(p, memo.path.as_str()) {
                            self.layout.nums.index = memo.num.index;
                            self.layout.nums.skip = memo.num.skip;
                            plan = CursorPlan::Restore(memo.cursor_pos);
                        } else {
                            self.layout.nums.reset();
                            plan = CursorPlan::Top;
                        }
                    },
                    None => {
                        proof {
                            assert(memo_views(self.c_memo@) =~= Seq::<(Seq<char>, Num, u16)>::empty());
                        }
                        self.layout.nums.reset();
                        plan = CursorPlan::Top;
                    },
                }
            },
            Move::Jump => {
                self.jumplist.add(p);
                self.current_dir = String::from_str(p);
                self.keyword = None;
                self.p_memo = Vec::new();
                self.c_memo = Vec::new();
                self.layout.nums.reset();
                plan = CursorPlan::Top;
            },
            Move::List => {
                self.current_dir = String::from_str(p);
                self.keyword = None;
                self.p_memo = Vec::new();
                self.c_memo = Vec::new();
                self.layout.nums.reset();
                plan = CursorPlan::Top;
            },
        }
        self.v_start = None;
        plan
    }

    /// Put the cursor on the item named `name` after going up (on the first
    /// item when there is no such item), keeping it three rows below the top
    /// when it is further down; at the top when there is no name. Returns the
    /// cursor row.
    pub fn place_cursor_on(&mut self, name: &Option<String>) -> (y: u16)
        ensures
            final(self).list@ == old(self).list@,
            *final(self) == (State { layout: Layout { nums: final(self).layout.nums, ..old(self).layout }, ..*old(self) }),
            match name {
                None => {
                    &&& final(self).layout.nums == Num { index: 0, skip: 0 }
                    &&& y == BEGINNING_ROW
                },
                Some(n) => {
                    let found = first_named(item_names(old(self).list@), n@);
                    let pos = if found < old(self).list@.len() { found } else { 0 };
                    &&& final(self).layout.nums.index == pos
                    &&& if pos < 3 {
                        &&& final(self).layout.nums.skip == 0
                        &&& y == pos + BEGINNING_ROW
                    } else {
                        &&& final(self).layout.nums.skip == #[verifier::truncate] ((pos - 3) as u16)
                        &&& y == BEGINNING_ROW + 3
                    }
                },
            },
    {
        match name {
            None => {
                self.layout.nums.reset();
                BEGINNING_ROW
            },
            Some(n) => {
                let ghost names = item_names(self.list@);
                proof {
                    assert(names.skip(0) =~= names);
                }
                let mut i: usize = 0;
                while i < self.list.len() && !crate::keymap::str_eq(self.list[i].file_name.as_str(), n.as_str())
                    invariant
                        i <= self.list@.len(),
                        *self == *old(self),
                        names == item_names(self.list@),
                        first_named(names, n@) == i + first_named(names.skip(i as int), n@),
                    decreases self.list@.len() - i,
                {
                    proof {
                        assert(names.skip(i as int)[0] == self.list@[i as int].file_name@);
                        assert(names.skip(i as int).drop_first() =~= names.skip(i + 1));
                    }
                    i = i + 1;
                }
                proof {
                    if i < self.list@.len() {
                        assert(names.skip(i as int)[0] == n@);
                    } else {
                        assert(names.skip(i as int).len() == 0);
                    }
                }
                let pos = if i < self.list.len() { i } else { 0 };
                self.layout.nums.index = pos;
                if pos < 3 {
                    self.layout.nums.skip = 0;
                    (pos as u16) + BEGINNING_ROW
                } else {
                    self.layout.nums.skip = #[verifier::truncate] ((pos - 3) as u16);
                    BEGINNING_ROW + 3
                }
            },
        }
    }
}

/// Whether `c` is ASCII whitespace (space, tab, line feed, form feed, carriage return).
pub open spec fn is_ascii_ws(c: char) -> bool {
    c == ' ' || c == '\t' || c == '\n' || c == '\x0C' || c == '\r'
}

/// The words of `rest` after the finished words `acc` and the current word `cur`:
/// maximal runs of characters that are not ASCII whitespace.
pub open spec fn words_from(acc: Seq<Seq<char>>, cur: Seq<char>, rest: Seq<char>) -> Seq<Seq<char>>
    decreases rest.len(),
{
    if rest.len() == 0 {
        if cur.len() > 0 {
            acc.push(cur)
        } else {
            acc
        }
    } else if is_ascii_ws(rest[0]) {
        words_from(if cur.len() > 0 { acc.push(cur) } else { acc }, Seq::empty(), rest.drop_first())
    } else {
        words_from(acc, cur.push(rest[0]), rest.drop_first())
    }
}

/// The words of a text.
pub open spec fn words(s: Seq<char>) -> Seq<Seq<char>> {
    words_from(Seq::empty(), Seq::empty(), s)
}

/// Split a text at ASCII whitespace, as `str::split_ascii_whitespace` does.
pub fn split_words(s: &str) -> (r: Vec<String>)
    ensures
        string_views(r@) == words(s@),
{
    let mut result: Vec<String> = Vec::new();
    let mut cur = String::new();
    let len = s.unicode_len();
    let mut k: usize = 0;
    proof {
        assert(s@.skip(0) =~= s@);
        assert(string_views(result@) =~= Seq::<Seq<char>>::empty());
    }
    while k < len
        invariant
            len == s@.len(),
            k <= len,
            words(s@) == words_from(string_views(result@), cur@, s@.skip(k as int)),
        decreases len - k,
    {
        let c = s.get_char(k);
        proof {
            assert(s@.skip(k as int)[0] == c);
            assert(s@.skip(k as int).drop_first() =~= s@.skip(k + 1));
        }
        if c == ' ' || c == '\t' || c == '\n' || c == '\x0C' || c == '\r' {
            if cur.as_str().unicode_len() > 0 {
                let ghost before = string_views(result@);
                let ghost w = cur@;
                result.push(cur);
                proof {
                    assert(string_views(result@) =~= before.push(w));
                }
                cur = String::new();
            } else {
                proof {
                    assert(cur@ =~= Seq::<char>::empty());
                }
            }
        } else {
            push_char(&mut cur, c);
        }
        k = k + 1;
    }
    proof {
        assert(s@.skip(len as int).len() == 0);
    }
    if cur.as_str().unicode_len() > 0 {
        let ghost before = string_views(result@);
        let ghost w = cur@;
        result.push(cur);
        proof {
            assert(string_views(result@) =~= before.push(w));
        }
    }
    result
}

/// The command line that opens `item`: the command configured for its
/// extension, split into words, with the path added; otherwise the default
/// command with the path. The flag tells whether the default was chosen.
pub open spec fn spec_open_command(commands: Option<ExtensionMap>, default: Seq<char>, item: ItemInfo) -> (Seq<Seq<char>>, bool) {
    match (commands, item.file_ext) {
        (Some(m), Some(e)) => if m@.contains_key(e@) {
            (words(m@[e@]).push(item.file_path@), false)
        } else {
            (seq![default, item.file_path@], true)
        },
        _ => (seq![default, item.file_path@], true),
    }
}

/// A command configured for the item's extension is run with all its words
/// (split at ASCII white space) and then the item's path; otherwise the default
/// command is run on the path.
pub proof fn law_open_command_words(commands: Option<ExtensionMap>, default: Seq<char>, item: ItemInfo, argv: Seq<Seq<char>>, is_default: bool)
    requires
        (argv, is_default) == spec_open_command(commands, default, item),
    ensures
        match (commands, item.file_ext) {
            (Some(m), Some(e)) if m@.contains_key(e@) => {
                let w = words(m@[e@]);
                &&& argv.len() == w.len() + 1
                &&& forall|k: int| 0 <= k < w.len() ==> argv[k] == #[trigger] w[k]
                &&& argv[argv.len() - 1] == item.file_path@
                &&& !is_default
            },
            _ => argv == seq![default, item.file_path@] && is_default,
        },
{
}

impl State {
    /// The command that opens `item` according to the config: its words and
    /// whether it is the default command. A configured command has a word.
    pub fn open_command(&self, item: &ItemInfo) -> (r: (Vec<String>, bool))
        requires
            self.commands matches Some(m) ==> forall|k: Seq<char>| #[trigger] m@.contains_key(k) ==> words(m@[k]).len() > 0,
        ensures
            string_views(r.0@) == spec_open_command(self.commands, self.default@, *item).0,
            r.1 == spec_open_command(self.commands, self.default@, *item).1,
            r.0@.len() >= 2,
    {
        let configured = match (&self.commands, &item.file_ext) {
            (Some(m), Some(e)) => m.get(e.as_str()),
            _ => None,
        };
        match configured {
            Some(c) => {
                let mut v = split_words(c.as_str());
                let ghost before = string_views(v@);
                v.push(item.file_path.clone());
                proof {
                    assert(string_views(v@) =~= before.push(item.file_path@));
                }
                (v, false)
            },
            None => {
                let mut v: Vec<String> = Vec::new();
                v.push(self.default.clone());
                v.push(item.file_path.clone());
                proof {
                    assert(string_views(v@) =~= seq![self.default@, item.file_path@]);
                }
                (v, true)
            },
        }
    }

    /// The name as the list shows it: whole when its UTF-8 encoding fits in
    /// `name_max_len` bytes, otherwise shortened to `name_max_len - 2` columns
    /// with `..` after it.
    pub fn display_name(&self, item: &ItemInfo) -> (r: String)
        requires
            encode_utf8(item.file_name@).len() > self.layout.name_max_len ==> self.layout.name_max_len >= 2,
        ensures
            r@ == if encode_utf8(item.file_name@).len() <= self.layout.name_max_len {
                item.file_name@
            } else {
                shorten_from(Seq::empty(), item.file_name@, (self.layout.name_max_len - 2) as nat) + seq!['.', '.']
            },
    {
        if item.file_name.as_str().as_bytes().len() <= self.layout.name_max_len {
            item.file_name.clone()
        } else {
            let i = self.layout.name_max_len - 2;
            let mut name = shorten_str_including_wide_char(item.file_name.as_str(), i);
            push_char(&mut name, '.');
            push_char(&mut name, '.');
            proof {
                assert(name@ =~= shorten_from(Seq::empty(), item.file_name@, i as nat) + seq!['.', '.']);
            }
            name
        }
    }

    /// The color of an item's name: that of dirty items when it is dirty,
    /// otherwise that of its kind.
    pub fn item_color(&self, item: &ItemInfo) -> (c: Colorname)
        ensures
            c == if item.is_dirty {
                self.layout.colors.dirty_fg
            } else {
                match item.file_type {
                    FileType::Directory => self.layout.colors.dir_fg,
                    FileType::File => self.layout.colors.file_fg,
                    FileType::Symlink => self.layout.colors.symlink_fg,
                }
            },
    {
        if item.is_dirty {
            self.layout.colors.dirty_fg
        } else {
            match item.file_type {
                FileType::Directory => self.layout.colors.dir_fg,
                FileType::File => self.layout.colors.file_fg,
                FileType::Symlink => self.layout.colors.symlink_fg,
            }
        }
    }
}

/// The write bits of the owner, the group and others, as `nix::sys::stat::Mode`
/// defines them.
pub open spec fn write_bits() -> (u32, u32, u32) {
    (0o200u32, 0o020u32, 0o002u32)
}

/// `Mode::S_IWUSR`, `Mode::S_IWGRP` and `Mode::S_IWOTH`: the crate takes them
/// from `libc`, which defines them as 0o200, 0o020 and 0o002.
#[verifier::external_body]
fn mode_write_bits() -> (r: (u32, u32, u32))
    ensures
        r == write_bits(),
{
    (
        nix::sys::stat::Mode::S_IWUSR.bits() as u32,
        nix::sys::stat::Mode::S_IWGRP.bits() as u32,
        nix::sys::stat::Mode::S_IWOTH.bits() as u32,
    )
}

/// Whether the process may write to a file of mode `mode` owned by `uid` and
/// `gid`: never for mode 0; always for root; otherwise by the owner's write bit
/// for its owner, the group's for a member of its group (`egid`, or one of the
/// supplementary groups, `in_group`), and the others' bit for anyone else.
pub fn write_permission(mode: u32, is_root: bool, uid: u32, gid: u32, euid: u32, egid: u32, in_group: bool) -> (b: bool)
    ensures
        b == if mode == 0 {
            false
        } else if is_root {
            true
        } else if uid == euid {
            mode & write_bits().0 != 0
        } else if gid == egid || in_group {
            mode & write_bits().1 != 0
        } else {
            mode & write_bits().2 != 0
        },
{
    if mode == 0 {
        false
    } else if is_root {
        true
    } else {
        let (usr, grp, oth) = mode_write_bits();
        if uid == euid {
            (mode & usr) != 0
        } else if gid == egid || in_group {
            (mode & grp) != 0
        } else {
            (mode & oth) != 0
        }
    }
}

/// The list with the `selected` flag of item `i` set to `b` (when `i` is an index of it).
pub open spec fn with_selected(list: Seq<ItemInfo>, i: int, b: bool) -> Seq<ItemInfo> {
    if 0 <= i < list.len() {
        list.update(i, ItemInfo { selected: b, ..list[i] })
    } else {
        list
    }
}

/// One step down with the selection following it (see `State::step_down`):
/// the new cursor and list, or `None` at the last item.
pub open spec fn selection_step_down(nums: Num, y: u16, row: u16, list: Seq<ItemInfo>, v: Option<usize>) -> Option<(Num, u16, Seq<ItemInfo>)> {
    match spec_move_down(nums, y, row, list.len()) {
        Some((n, y1)) => Some((n, y1, match v {
            None => list,
            Some(s) => if nums.index >= s {
                with_selected(list, n.index as int, true)
            } else {
                with_selected(list, nums.index as int, false)
            },
        })),
        None => None,
    }
}

/// `k` steps down with the selection following, stopping at the last item.
pub open spec fn selection_steps_down(nums: Num, y: u16, row: u16, list: Seq<ItemInfo>, v: Option<usize>, k: nat) -> (Num, u16, Seq<ItemInfo>)
    decreases k,
{
    if k == 0 {
        (nums, y, list)
    } else {
        match selection_step_down(nums, y, row, list, v) {
            Some((n, y1, l1)) => selection_steps_down(n, y1, row, l1, v, (k - 1) as nat),
            None => (nums, y, list),
        }
    }
}

/// One step up with the selection following it (see `State::step_up`): the
/// new cursor and list, or `None` at the first item.
pub open spec fn selection_step_up(nums: Num, y: u16, list: Seq<ItemInfo>, v: Option<usize>) -> Option<(Num, u16, Seq<ItemInfo>)> {
    match spec_move_up(nums, y) {
        Some((n, y1)) => Some((n, y1, match v {
            None => list,
            Some(s) => if nums.index > s {
                with_selected(list, nums.index as int, false)
            } else {
                with_selected(list, n.index as int, true)
            },
        })),
        None => None,
    }
}

/// `k` steps up with the selection following, stopping at the first item.
pub open spec fn selection_steps_up(nums: Num, y: u16, list: Seq<ItemInfo>, v: Option<usize>, k: nat) -> (Num, u16, Seq<ItemInfo>)
    decreases k,
{
    if k == 0 {
        (nums, y, list)
    } else {
        match selection_step_up(nums, y, list, v) {
            Some((n, y1, l1)) => selection_steps_up(n, y1, l1, v, (k - 1) as nat),
            None => (nums, y, list),
        }
    }
}

impl State {
    /// Set the `selected` flag of item `i`, if there is one.
    fn set_selected(&mut self, i: usize, b: bool)
        ensures
            final(self).list@ == with_selected(old(self).list@, i as int, b),
            *final(self) == (State { list: final(self).list, ..*old(self) }),
    {
        if i < self.list.len() {
            self.list[i].selected = b;
            proof {
                assert(self.list@ =~= with_selected(old(self).list@, i as int, b));
            }
        }
    }

    /// Go down one item. In visual mode the selection follows: moving down
    /// from the start of the selection or below selects the new item, moving
    /// down from above it unselects the item left. Returns whether the cursor moved.
    pub fn step_down(&mut self) -> (moved: bool)
        requires
            old(self).layout.terminal_row >= 4,
            old(self).list@.len() <= u16::MAX,
            cursor_fits(old(self).layout.nums, old(self).layout.y, old(self).layout.terminal_row, old(self).list@.len()),
        ensures
            moved == (spec_move_down(old(self).layout.nums, old(self).layout.y, old(self).layout.terminal_row, old(self).list@.len()) is Some),
            match spec_move_down(old(self).layout.nums, old(self).layout.y, old(self).layout.terminal_row, old(self).list@.len()) {
                Some((n, y1)) => {
                    &&& final(self).layout == (Layout { nums: n, y: y1, ..old(self).layout })
                    &&& final(self).list@ == match old(self).v_start {
                        None => old(self).list@,
                        Some(s) => if old(self).layout.nums.index >= s {
                            with_selected(old(self).list@, n.index as int, true)
                        } else {
                            with_selected(old(self).list@, old(self).layout.nums.index as int, false)
                        },
                    }
                },
                None => {
                    &&& final(self).layout == old(self).layout
                    &&& final(self).list@ == old(self).list@
                },
            },
            cursor_fits(final(self).layout.nums, final(self).layout.y, final(self).layout.terminal_row, final(self).list@.len()),
            final(self).v_start == old(self).v_start,
            *final(self) == (State { list: final(self).list, layout: final(self).layout, ..*old(self) }),
            !moved ==> *final(self) == *old(self),
    {
        proof {
            lemma_move_down_fits(self.layout.nums, self.layout.y, self.layout.terminal_row, self.list@.len());
        }
        let before = self.layout.nums.index;
        match move_down(self.layout.nums, self.layout.y, self.layout.terminal_row, self.list.len()) {
            Some((n, y1)) => {
                match self.v_start {
                    Some(s) => {
                        if before >= s {
                            self.set_selected(n.index, true);
                        } else {
                            self.set_selected(before, false);
                        }
                    },
                    None => {},
                }
                self.layout.nums = n;
                self.layout.y = y1;
                true
            },
            None => false,
        }
    }

    /// Go up one item. In visual mode the selection follows: moving up from
    /// below the start of the selection unselects the item left, otherwise the
    /// new item is selected. Returns whether the cursor moved.
    pub fn step_up(&mut self) -> (moved: bool)
        requires
            old(self).layout.terminal_row >= 4,
            old(self).list@.len() <= u16::MAX,
            cursor_fits(old(self).layout.nums, old(self).layout.y, old(self).layout.terminal_row, old(self).list@.len()),
        ensures
            moved == (spec_move_up(old(self).layout.nums, old(self).layout.y) is Some),
            match spec_move_up(old(self).layout.nums, old(self).layout.y) {
                Some((n, y1)) => {
                    &&& final(self).layout == (Layout { nums: n, y: y1, ..old(self).layout })
                    &&& final(self).list@ == match old(self).v_start {
                        None => old(self).list@,
                        Some(s) => if old(self).layout.nums.index > s {
                            with_selected(old(self).list@, old(self).layout.nums.index as int, false)
                        } else {
                            with_selected(old(self).list@, n.index as int, true)
                        },
                    }
                },
                None => {
                    &&& final(self).layout == old(self).layout
                    &&& final(self).list@ == old(self).list@
                },
            },
            cursor_fits(final(self).layout.nums, final(self).layout.y, final(self).layout.terminal_row, final(self).list@.len()),
            final(self).v_start == old(self).v_start,
            *final(self) == (State { list: final(self).list, layout: final(self).layout, ..*old(self) }),
            !moved ==> *final(self) == *old(self),
    {
        proof {
            lemma_move_up_fits(self.layout.nums, self.layout.y, self.layout.terminal_row, self.list@.len());
        }
        let before = self.layout.nums.index;
        match move_up(self.layout.nums, self.layout.y) {
            Some((n, y1)) => {
                match self.v_start {
                    Some(s) => {
                        if before > s {
                            self.set_selected(before, false);
                        } else {
                            self.set_selected(n.index, true);
                        }
                    },
                    None => {},
                }
                self.layout.nums = n;
                self.layout.y = y1;
                true
            },
            None => false,
        }
    }

    /// Half a page down (`Ctrl-d`): single steps down, as many as half the
    /// rows (rounded up), stopping at the last item; in visual mode the
    /// selection follows each step.
    pub fn half_page_down(&mut self)
        requires
            old(self).layout.terminal_row >= 4,
            old(self).list@.len() <= u16::MAX,
            cursor_fits(old(self).layout.nums, old(self).layout.y, old(self).layout.terminal_row, old(self).list@.len()),
        ensures
            final(self).list@.len() == old(self).list@.len(),
            final(self).layout.terminal_row == old(self).layout.terminal_row,
            cursor_fits(final(self).layout.nums, final(self).layout.y, final(self).layout.terminal_row, final(self).list@.len()),
            old(self).v_start is None ==> final(self).list@ == old(self).list@
                && (final(self).layout.nums, final(self).layout.y) == steps_down(
                old(self).layout.nums,
                old(self).layout.y,
                old(self).layout.terminal_row,
                old(self).list@.len(),
                half_rows(old(self).layout.terminal_row),
            ),
            (final(self).layout.nums, final(self).layout.y, final(self).list@) == selection_steps_down(
                old(self).layout.nums,
                old(self).layout.y,
                old(self).layout.terminal_row,
                old(self).list@,
                old(self).v_start,
                half_rows(old(self).layout.terminal_row),
            ),
            final(self).layout == (Layout { nums: final(self).layout.nums, y: final(self).layout.y, ..old(self).layout }),
            final(self).v_start == old(self).v_start,
            *final(self) == (State { list: final(self).list, layout: final(self).layout, ..*old(self) }),
    {
        let row = self.layout.terminal_row;
        let half: u16 = row / 2 + row % 2;
        let mut k: u16 = 0;
        while k < half
            invariant
                k <= half,
                half == half_rows(row),
                row == old(self).layout.terminal_row,
                self.layout.terminal_row == row,
                row >= 4,
                self.list@.len() == old(self).list@.len(),
                self.list@.len() <= u16::MAX,
                self.v_start == old(self).v_start,
                cursor_fits(self.layout.nums, self.layout.y, row, self.list@.len()),
                old(self).v_start is None ==> self.list@ == old(self).list@
                    && steps_down(old(self).layout.nums, old(self).layout.y, row, self.list@.len(), half_rows(row))
                    == steps_down(self.layout.nums, self.layout.y, row, self.list@.len(), (half - k) as nat),
                selection_steps_down(old(self).layout.nums, old(self).layout.y, row, old(self).list@, old(self).v_start, half_rows(row))
                    == selection_steps_down(self.layout.nums, self.layout.y, row, self.list@, self.v_start, (half - k) as nat),
                self.layout == (Layout { nums: self.layout.nums, y: self.layout.y, ..old(self).layout }),
                *self == (State { list: self.list, layout: self.layout, ..*old(self) }),
            decreases half - k,
        {
            if !self.step_down() {
                return;
            }
            k = k + 1;
        }
    }

    /// Half a page up (`Ctrl-u`): single steps up, as many as half the rows
    /// (rounded up), stopping at the first item; in visual mode the selection
    /// follows each step.
    pub fn half_page_up(&mut self)
        requires
            old(self).layout.terminal_row >= 4,
            old(self).list@.len() <= u16::MAX,
            cursor_fits(old(self).layout.nums, old(self).layout.y, old(self).layout.terminal_row, old(self).list@.len()),
        ensures
            final(self).list@.len() == old(self).list@.len(),
            final(self).layout.terminal_row == old(self).layout.terminal_row,
            cursor_fits(final(self).layout.nums, final(self).layout.y, final(self).layout.terminal_row, final(self).list@.len()),
            old(self).v_start is None ==> final(self).list@ == old(self).list@
                && (final(self).layout.nums, final(self).layout.y) == steps_up(
                old(self).layout.nums,
                old(self).layout.y,
                half_rows(old(self).layout.terminal_row),
            ),
            (final(self).layout.nums, final(self).layout.y, final(self).list@) == selection_steps_up(
                old(self).layout.nums,
                old(self).layout.y,
                old(self).list@,
                old(self).v_start,
                half_rows(old(self).layout.terminal_row),
            ),
            final(self).layout == (Layout { nums: final(self).layout.nums, y: final(self).layout.y, ..old(self).layout }),
            final(self).v_start == old(self).v_start,
            *final(self) == (State { list: final(self).list, layout: final(self).layout, ..*old(self) }),
    {
        let row = self.layout.terminal_row;
        let half: u16 = row / 2 + row % 2;
        let mut k: u16 = 0;
        while k < half
            invariant
                k <= half,
                half == half_rows(row),
                row == old(self).layout.terminal_row,
                self.layout.terminal_row == row,
                row >= 4,
                self.list@.len() == old(self).list@.len(),
                self.list@.len() <= u16::MAX,
                self.v_start == old(self).v_start,
                cursor_fits(self.layout.nums, self.layout.y, row, self.list@.len()),
                old(self).v_start is None ==> self.list@ == old(self).list@
                    && steps_up(old(self).layout.nums, old(self).layout.y, half_rows(row))
                    == steps_up(self.layout.nums, self.layout.y, (half - k) as nat),
                selection_steps_up(old(self).layout.nums, old(self).layout.y, old(self).list@, old(self).v_start, half_rows(row))
                    == selection_steps_up(self.layout.nums, self.layout.y, self.list@, self.v_start, (half - k) as nat),
                self.layout == (Layout { nums: self.layout.nums, y: self.layout.y, ..old(self).layout }),
                *self == (State { list: self.list, layout: self.layout, ..*old(self) }),
            decreases half - k,
        {
            if !self.step_up() {
                return;
            }
            k = k + 1;
        }
    }

    /// Record the items put into the current directory (`put` holds the paths
    /// they got): undone operations are dropped and the put becomes the newest
    /// operation.
    pub fn record_put(&mut self, targets: &[ItemBuffer], put: Vec<String>)
        ensures
            final(self).operations.pos == 0,
            final(self).operations.op_list@.drop_last() == kept(old(self).operations.op_list@, old(self).operations.pos as nat),
            final(self).operations.op_list@.len() == kept(old(self).operations.op_list@, old(self).operations.pos as nat).len() + 1,
            final(self).operations.op_list@.last() matches OpKind::Put(p) && {
                &&& buffer_views(p.original@) == buffer_views(targets@)
                &&& p.put@ == put@
                &&& p.dir@ == old(self).current_dir@
            },
            final(self).list@ == old(self).list@,
            final(self).registers == old(self).registers,
    {
        self.operations.branch();
        let p = PutFiles { original: copy_buffers(targets), put, dir: self.current_dir.clone() };
        self.operations.push(OpKind::Put(p));
    }
}

/// The name an item put among `names` gets: its own, or the first renaming
/// (of a directory or of a file) that is not taken.
pub fn put_name(item: &ItemBuffer, names: &[String]) -> (r: String)
    requires
        names@.len() < usize::MAX,
        item.file_type != FileType::Directory ==> is_plain_file_name(item.file_name@) && item.file_name@.len() < i64::MAX,
    ensures
        if item.file_type == FileType::Directory {
            is_first_free(names@, |k: nat| dir_candidate(item.file_name@, k), r@)
        } else {
            is_first_free(names@, |k: nat| file_candidate(item.file_name@, k), r@)
        },
{
    match item.file_type {
        FileType::Directory => rename_dir(item.file_name.as_str(), names),
        _ => rename_file(item.file_name.as_str(), names),
    }
}

} // verus!
