//! The order of the listing: directories first, then files, each group sorted
//! by name (natural order, ignoring case) or by modification time (newest
//! first), hidden items left out unless they are shown.
use vstd::prelude::*;
use crate::session::SortKey;
use crate::state::{FileType, ItemInfo};

verus! {

/// Lexicographic order of character sequences (that of `str`, since UTF-8
/// keeps the order of code points).
pub open spec fn str_lt(a: Seq<char>, b: Seq<char>) -> bool
    decreases a.len(),
{
    if a.len() == 0 {
        b.len() > 0
    } else if b.len() == 0 {
        false
    } else if a[0] != b[0] {
        a[0] < b[0]
    } else {
        str_lt(a.drop_first(), b.drop_first())
    }
}

/// The order of optional times: no time before any time, times as strings.
pub open spec fn time_lt(a: Option<String>, b: Option<String>) -> bool {
    match (a, b) {
        (None, Some(_)) => true,
        (Some(x), Some(y)) => str_lt(x@, y@),
        _ => false,
    }
}

/// Whether `a` comes before `b`.
pub fn str_less(a: &str, b: &str) -> (r: bool)
    ensures
        r == str_lt(a@, b@),
{
    let al = a.unicode_len();
    let bl = b.unicode_len();
    let mut k: usize = 0;
    proof {
        assert(a@.skip(0) =~= a@);
        assert(b@.skip(0) =~= b@);
    }
    while k < al && k < bl
        invariant
            al == a@.len(),
            bl == b@.len(),
            k <= al && k <= bl,
            str_lt(a@, b@) == str_lt(a@.skip(k as int), b@.skip(k as int)),
        decreases al - k,
    {
        let x = a.get_char(k);
        let y = b.get_char(k);
        proof {
            assert(a@.skip(k as int)[0] == x);
            assert(b@.skip(k as int)[0] == y);
        }
        if x != y {
            return x < y;
        }
        proof {
            assert(a@.skip(k as int).drop_first() =~= a@.skip(k + 1));
            assert(b@.skip(k as int).drop_first() =~= b@.skip(k + 1));
        }
        k = k + 1;
    }
    proof {
        assert(a@.skip(k as int).len() == al - k);
        assert(b@.skip(k as int).len() == bl - k);
    }
    k == al && k < bl
}

/// Whether time `a` comes before time `b`.
pub fn time_less(a: &Option<String>, b: &Option<String>) -> (r: bool)
    ensures
        r == time_lt(*a, *b),
{
    match (a, b) {
        (None, Some(_)) => true,
        (Some(x), Some(y)) => str_less(x.as_str(), y.as_str()),
        _ => false,
    }
}

/// Inserting `x` after the items of `s`: it moves before the trailing items
/// that are older than it.
pub open spec fn insert_by_time(s: Seq<ItemInfo>, x: ItemInfo) -> Seq<ItemInfo>
    decreases s.len(),
{
    if s.len() > 0 && time_lt(s.last().modified, x.modified) {
        insert_by_time(s.drop_last(), x).push(s.last())
    } else {
        s.push(x)
    }
}

/// The items sorted by modification time, newest first; items of the same
/// time keep their order (a stable sort).
pub open spec fn sort_by_time(s: Seq<ItemInfo>) -> Seq<ItemInfo>
    decreases s.len(),
{
    if s.len() == 0 {
        s
    } else {
        insert_by_time(sort_by_time(s.drop_last()), s.last())
    }
}

/// `insert_by_time` puts `x` at `p`, past the last item not older than it.
proof fn lemma_insert_by_time_at(s: Seq<ItemInfo>, x: ItemInfo, p: int)
    requires
        0 <= p <= s.len(),
        forall|j: int| p <= j < s.len() ==> time_lt((#[trigger] s[j]).modified, x.modified),
        p > 0 ==> !time_lt(s[p - 1].modified, x.modified),
    ensures
        insert_by_time(s, x) == s.insert(p, x),
    decreases s.len(),
{
    if s.len() > 0 && time_lt(s.last().modified, x.modified) {
        assert(p < s.len()) by {
            if p == s.len() {
                assert(s[p - 1] == s.last());
            }
        }
        let t = s.drop_last();
        assert forall|j: int| p <= j < t.len() implies time_lt((#[trigger] t[j]).modified, x.modified) by {
            assert(t[j] == s[j]);
        }
        if p > 0 {
            assert(t[p - 1] == s[p - 1]);
        }
        lemma_insert_by_time_at(t, x, p);
        assert(t.insert(p, x).push(s.last()) =~= s.insert(p, x));
    } else {
        if p < s.len() {
            assert(s[s.len() - 1] == s.last());
        }
        assert(p == s.len());
        assert(s.push(x) =~= s.insert(p, x));
    }
}

/// The order of character sequences is irreflexive and transitive.
proof fn lemma_str_lt_order(a: Seq<char>, b: Seq<char>, c: Seq<char>)
    ensures
        !str_lt(a, a),
        str_lt(a, b) && str_lt(b, c) ==> str_lt(a, c),
        str_lt(a, b) ==> !str_lt(b, a),
    decreases a.len(),
{
    if a.len() > 0 && b.len() > 0 && c.len() > 0 {
        lemma_str_lt_order(a.drop_first(), b.drop_first(), c.drop_first());
    }
    if a.len() > 0 && b.len() > 0 {
        lemma_str_lt_order(a.drop_first(), b.drop_first(), b.drop_first());
    }
    if a.len() > 0 {
        lemma_str_lt_order(a.drop_first(), a.drop_first(), a.drop_first());
    }
}

/// Two character sequences are equal or one comes before the other.
proof fn lemma_str_lt_total(a: Seq<char>, b: Seq<char>)
    ensures
        a == b || str_lt(a, b) || str_lt(b, a),
    decreases a.len(),
{
    if a.len() > 0 && b.len() > 0 && a[0] == b[0] {
        lemma_str_lt_total(a.drop_first(), b.drop_first());
        if a.drop_first() == b.drop_first() {
            assert(a =~= seq![a[0]] + a.drop_first());
            assert(b =~= seq![b[0]] + b.drop_first());
        }
    } else if a.len() == 0 && b.len() == 0 {
        assert(a =~= b);
    }
}

/// Item `a` is not older than item `b`.
pub open spec fn not_older(a: ItemInfo, b: ItemInfo) -> bool {
    !time_lt(a.modified, b.modified)
}

/// Items come newest first.
pub open spec fn newest_first(s: Seq<ItemInfo>) -> bool {
    forall|i: int, j: int| 0 <= i < j < s.len() ==> not_older(#[trigger] s[i], #[trigger] s[j])
}

/// Being not older is transitive, and of two items one is not older than the other.
proof fn lemma_not_older(a: ItemInfo, b: ItemInfo, c: ItemInfo)
    ensures
        not_older(a, b) && not_older(b, c) ==> not_older(a, c),
        not_older(a, b) || not_older(b, a),
        time_lt(a.modified, b.modified) ==> not_older(b, a),
{
    match (a.modified, b.modified, c.modified) {
        (Some(x), Some(y), Some(z)) => {
            lemma_str_lt_order(x@, y@, z@);
            lemma_str_lt_order(x@, z@, y@);
            lemma_str_lt_order(y@, x@, z@);
            lemma_str_lt_order(y@, z@, x@);
            lemma_str_lt_order(z@, x@, y@);
            lemma_str_lt_order(z@, y@, x@);
            lemma_str_lt_total(x@, y@);
            lemma_str_lt_total(y@, z@);
            lemma_str_lt_total(x@, z@);
        },
        (Some(x), Some(y), None) => {
            lemma_str_lt_total(x@, y@);
            lemma_str_lt_order(x@, y@, y@);
        },
        (Some(x), None, Some(z)) => {
            lemma_str_lt_total(x@, z@);
            lemma_str_lt_order(z@, x@, x@);
        },
        (None, Some(y), Some(z)) => {
            lemma_str_lt_total(y@, z@);
            lemma_str_lt_order(y@, z@, z@);
        },
        _ => {},
    }
}

/// Inserting an item by time into items that come newest first keeps them so.
proof fn lemma_insert_by_time_sorted(s: Seq<ItemInfo>, x: ItemInfo)
    requires
        newest_first(s),
    ensures
        newest_first(insert_by_time(s, x)),
        insert_by_time(s, x).len() == s.len() + 1,
        forall|k: int| 0 <= k < insert_by_time(s, x).len() ==> (#[trigger] insert_by_time(s, x)[k] == x || s.contains(insert_by_time(s, x)[k])),
    decreases s.len(),
{
    if s.len() > 0 && time_lt(s.last().modified, x.modified) {
        let t = s.drop_last();
        assert(newest_first(t)) by {
            assert forall|i: int, j: int| 0 <= i < j < t.len() implies not_older(#[trigger] t[i], #[trigger] t[j]) by {
                assert(t[i] == s[i] && t[j] == s[j]);
            }
        }
        lemma_insert_by_time_sorted(t, x);
        let u = insert_by_time(t, x);
        let r = u.push(s.last());
        assert forall|i: int, j: int| 0 <= i < j < r.len() implies not_older(#[trigger] r[i], #[trigger] r[j]) by {
            if j == r.len() - 1 {
                assert(r[j] == s.last());
                assert(r[i] == u[i]);
                if u[i] == x {
                    lemma_not_older(s.last(), x, x);
                } else {
                    let k = choose|k: int| 0 <= k < t.len() && t[k] == u[i];
                    assert(s[k] == t[k]);
                    assert(s[s.len() - 1] == s.last());
                }
            } else {
                assert(r[i] == u[i] && r[j] == u[j]);
            }
        }
        assert forall|k: int| 0 <= k < r.len() implies (#[trigger] r[k] == x || s.contains(r[k])) by {
            if k == r.len() - 1 {
                assert(s[s.len() - 1] == s.last());
            } else {
                assert(r[k] == u[k]);
                if u[k] != x {
                    let m = choose|m: int| 0 <= m < t.len() && t[m] == u[k];
                    assert(s[m] == t[m]);
                }
            }
        }
    } else {
        let r = s.push(x);
        assert forall|i: int, j: int| 0 <= i < j < r.len() implies not_older(#[trigger] r[i], #[trigger] r[j]) by {
            if j == r.len() - 1 {
                assert(r[j] == x);
                assert(r[i] == s[i]);
                assert(s[s.len() - 1] == s.last());
                if i < s.len() - 1 {
                    lemma_not_older(s[i], s.last(), x);
                }
            } else {
                assert(r[i] == s[i] && r[j] == s[j]);
            }
        }
        assert forall|k: int| 0 <= k < r.len() implies (#[trigger] r[k] == x || s.contains(r[k])) by {
            if k < s.len() {
                assert(r[k] == s[k]);
            }
        }
    }
}

/// Sorting by time puts the items newest first.
pub proof fn law_sort_by_time_newest_first(s: Seq<ItemInfo>)
    ensures
        newest_first(sort_by_time(s)),
        sort_by_time(s).to_multiset() == s.to_multiset(),
    decreases s.len(),
{
    lemma_sort_by_time_multiset(s);
    if s.len() > 0 {
        law_sort_by_time_newest_first(s.drop_last());
        lemma_insert_by_time_sorted(sort_by_time(s.drop_last()), s.last());
    }
}

/// Leaving items out keeps the rest newest first.
proof fn lemma_filter_newest_first(s: Seq<ItemInfo>, pred: spec_fn(ItemInfo) -> bool)
    requires
        newest_first(s),
    ensures
        newest_first(s.filter(pred)),
    decreases s.len(),
{
    reveal(Seq::filter);
    if s.len() > 0 {
        let t = s.drop_last();
        assert(newest_first(t)) by {
            assert forall|i: int, j: int| 0 <= i < j < t.len() implies not_older(#[trigger] t[i], #[trigger] t[j]) by {
                assert(t[i] == s[i] && t[j] == s[j]);
            }
        }
        lemma_filter_newest_first(t, pred);
        lemma_filter_members(t, pred);
        let f = t.filter(pred);
        if pred(s.last()) {
            let r = f.push(s.last());
            assert forall|i: int, j: int| 0 <= i < j < r.len() implies not_older(#[trigger] r[i], #[trigger] r[j]) by {
                if j == r.len() - 1 {
                    assert(r[i] == f[i]);
                    assert(t.contains(f[i]));
                    let k = choose|k: int| 0 <= k < t.len() && t[k] == f[i];
                    assert(s[k] == t[k]);
                    assert(s[s.len() - 1] == s.last());
                } else {
                    assert(r[i] == f[i] && r[j] == f[j]);
                }
            }
        }
    }
}

/// In the listing by time, directories come newest first, and so do the
/// other items.
pub proof fn lemma_time_listing(items: Seq<ItemInfo>, show_hidden: bool)
    ensures
        ({
            let r = visible(sort_by_time(dirs_of(items)) + sort_by_time(files_of(items)), show_hidden);
            forall|i: int, j: int| 0 <= i < j < r.len() && is_dir(#[trigger] r[i]) == is_dir(#[trigger] r[j]) ==> not_older(r[i], r[j])
        }),
{
    let d = sort_by_time(dirs_of(items));
    let f = sort_by_time(files_of(items));
    law_sort_by_time_newest_first(dirs_of(items));
    law_sort_by_time_newest_first(files_of(items));
    lemma_listing_order(items, d, f, show_hidden);
    let hp = |i: ItemInfo| !i.is_hidden;
    let (dd, ff) = if show_hidden {
        (d, f)
    } else {
        lemma_filter_newest_first(d, hp);
        lemma_filter_newest_first(f, hp);
        Seq::filter_distributes_over_add(d, f, hp);
        (d.filter(hp), f.filter(hp))
    };
    let r = visible(d + f, show_hidden);
    assert(r == dd + ff);
    assert(newest_first(dd) && newest_first(ff));
    lemma_filter_members(items, |i: ItemInfo| is_dir(i));
    lemma_filter_members(items, |i: ItemInfo| !is_dir(i));
    lemma_sort_by_time_multiset(dirs_of(items));
    lemma_sort_by_time_multiset(files_of(items));
    lemma_permutation_members(dirs_of(items), d);
    lemma_permutation_members(files_of(items), f);
    if !show_hidden {
        lemma_filter_members(d, hp);
        lemma_filter_members(f, hp);
    }
    assert forall|i: int| 0 <= i < dd.len() implies is_dir(#[trigger] dd[i]) by {
        let k = choose|k: int| 0 <= k < d.len() && d[k] == dd[i];
        let m = choose|m: int| 0 <= m < dirs_of(items).len() && dirs_of(items)[m] == d[k];
    }
    assert forall|i: int| 0 <= i < ff.len() implies !is_dir(#[trigger] ff[i]) by {
        let k = choose|k: int| 0 <= k < f.len() && f[k] == ff[i];
        let m = choose|m: int| 0 <= m < files_of(items).len() && files_of(items)[m] == f[k];
    }
    assert forall|i: int, j: int| 0 <= i < j < r.len() && is_dir(#[trigger] r[i]) == is_dir(#[trigger] r[j]) implies not_older(r[i], r[j]) by {
        if j < dd.len() {
            assert(r[i] == dd[i] && r[j] == dd[j]);
        } else if i >= dd.len() {
            assert(r[i] == ff[i - dd.len()] && r[j] == ff[j - dd.len()]);
        } else {
            assert(r[i] == dd[i] && r[j] == ff[j - dd.len()]);
        }
    }
}

/// The `natord::compare_ignore_case` order of a list of names, as a stable
/// sort puts them.
pub uninterp spec fn natural_order_ignore_case(names: Seq<Seq<char>>) -> Seq<Seq<char>>;

/// The views of the names of a sequence of items.
pub open spec fn names_of(s: Seq<ItemInfo>) -> Seq<Seq<char>> {
    s.map_values(|i: ItemInfo| i.file_name@)
}

/// `slice::sort_by` with `natord::compare_ignore_case` on the names: the items
/// are permuted so that their names come in the order `natural_order_ignore_case`
/// names (the comparison reads the names only); which order that is, is not
/// restated here, nor that the names ascend under the comparison (`sort_by`
/// promises that only for a total order, which natord does not show).
#[verifier::external_body]
fn sort_by_name(v: &mut Vec<ItemInfo>)
    ensures
        names_of(final(v)@) == natural_order_ignore_case(names_of(old(v)@)),
        final(v)@.to_multiset() == old(v)@.to_multiset(),
{
    v.sort_by(|a, b| natord::compare_ignore_case(&a.file_name, &b.file_name));
}

/// Sort items by modification time, newest first, keeping the order of items
/// of the same time.
pub fn sort_items_by_time(v: Vec<ItemInfo>) -> (r: Vec<ItemInfo>)
    ensures
        r@ == sort_by_time(v@),
{
    let mut v = v;
    let ghost orig = v@;
    // reverse, so that popping gives the items in their order
    let mut rev: Vec<ItemInfo> = Vec::new();
    while v.len() > 0
        invariant
            orig == v@ + rev@.reverse(),
        decreases v@.len(),
    {
        let ghost before_v = v@;
        let ghost before_rev = rev@;
        let x = v.pop().unwrap();
        rev.push(x);
        proof {
            assert(before_v =~= v@.push(x));
            assert(rev@.reverse() =~= seq![x] + before_rev.reverse());
            assert(v@ + rev@.reverse() =~= before_v + before_rev.reverse());
        }
    }
    proof {
        assert(orig =~= rev@.reverse());
    }
    let mut r: Vec<ItemInfo> = Vec::new();
    let ghost mut done: Seq<ItemInfo> = Seq::empty();
    while rev.len() > 0
        invariant
            orig == done + rev@.reverse(),
            r@ == sort_by_time(done),
        decreases rev@.len(),
    {
        let ghost before_rev = rev@;
        let x = rev.pop().unwrap();
        proof {
            assert(before_rev =~= rev@.push(x));
            assert(before_rev.reverse() =~= seq![x] + rev@.reverse());
        }
        let mut p: usize = r.len();
        while p > 0 && time_less(&r[p - 1].modified, &x.modified)
            invariant
                p <= r@.len(),
                forall|j: int| p <= j < r@.len() ==> time_lt((#[trigger] r@[j]).modified, x.modified),
            decreases p,
        {
            p = p - 1;
        }
        proof {
            lemma_insert_by_time_at(r@, x, p as int);
            let nd = done.push(x);
            assert(nd.drop_last() =~= done);
            assert(orig =~= nd + rev@.reverse());
        }
        r.insert(p, x);
        proof {
            done = done.push(x);
        }
    }
    proof {
        assert(rev@.reverse() =~= Seq::<ItemInfo>::empty());
        assert(done =~= orig);
    }
    r
}

/// Inserting by time adds the item to the items.
proof fn lemma_insert_by_time_multiset(s: Seq<ItemInfo>, x: ItemInfo)
    ensures
        insert_by_time(s, x).to_multiset() == s.to_multiset().insert(x),
    decreases s.len(),
{
    broadcast use vstd::seq_lib::group_to_multiset_ensures;
    if s.len() > 0 && time_lt(s.last().modified, x.modified) {
        lemma_insert_by_time_multiset(s.drop_last(), x);
        assert(s =~= s.drop_last().push(s.last()));
    }
}

/// Sorting by time permutes the items.
pub proof fn lemma_sort_by_time_multiset(s: Seq<ItemInfo>)
    ensures
        sort_by_time(s).to_multiset() == s.to_multiset(),
    decreases s.len(),
{
    broadcast use vstd::seq_lib::group_to_multiset_ensures;
    if s.len() > 0 {
        lemma_sort_by_time_multiset(s.drop_last());
        lemma_insert_by_time_multiset(sort_by_time(s.drop_last()), s.last());
        assert(s =~= s.drop_last().push(s.last()));
    }
}

/// Every item of a permutation of `s` is an item of `s`.
proof fn lemma_permutation_members(s: Seq<ItemInfo>, r: Seq<ItemInfo>)
    requires
        r.to_multiset() == s.to_multiset(),
    ensures
        forall|i: int| 0 <= i < r.len() ==> s.contains(#[trigger] r[i]),
{
    broadcast use vstd::seq_lib::group_to_multiset_ensures;
    assert forall|i: int| 0 <= i < r.len() implies s.contains(#[trigger] r[i]) by {
        assert(r.contains(r[i]));
        assert(r.to_multiset().count(r[i]) > 0);
    }
}

/// Items kept by a filter satisfy its predicate.
proof fn lemma_filter_members(s: Seq<ItemInfo>, pred: spec_fn(ItemInfo) -> bool)
    ensures
        forall|i: int| 0 <= i < s.filter(pred).len() ==> pred(#[trigger] s.filter(pred)[i]),
        forall|i: int| 0 <= i < s.filter(pred).len() ==> s.contains(#[trigger] s.filter(pred)[i]),
    decreases s.len(),
{
    reveal(Seq::filter);
    if s.len() > 0 {
        lemma_filter_members(s.drop_last(), pred);
        let f = s.drop_last().filter(pred);
        assert forall|i: int| 0 <= i < s.filter(pred).len() implies s.contains(#[trigger] s.filter(pred)[i]) by {
            if i < f.len() {
                assert(s.drop_last().contains(f[i]));
                let k = choose|k: int| 0 <= k < s.drop_last().len() && s.drop_last()[k] == f[i];
                assert(s[k] == f[i]);
            } else {
                assert(s.filter(pred)[i] == s.last());
                assert(s[s.len() - 1] == s.last());
            }
        }
    }
}

/// Permutations of the directories and of the other items, joined and
/// filtered, have every directory before every other item, and no hidden item
/// unless hidden items are shown.
pub proof fn lemma_listing_order(items: Seq<ItemInfo>, d: Seq<ItemInfo>, f: Seq<ItemInfo>, show_hidden: bool)
    requires
        d.to_multiset() == dirs_of(items).to_multiset(),
        f.to_multiset() == files_of(items).to_multiset(),
    ensures
        forall|i: int, j: int| 0 <= i < j < visible(d + f, show_hidden).len() && is_dir(
            #[trigger] visible(d + f, show_hidden)[j],
        ) ==> is_dir(#[trigger] visible(d + f, show_hidden)[i]),
        !show_hidden ==> forall|i: int| 0 <= i < visible(d + f, show_hidden).len() ==> !(#[trigger] visible(d + f, show_hidden)[i]).is_hidden,
{
    let dp = |i: ItemInfo| is_dir(i);
    let fp = |i: ItemInfo| !is_dir(i);
    let hp = |i: ItemInfo| !i.is_hidden;
    lemma_filter_members(items, dp);
    lemma_filter_members(items, fp);
    lemma_permutation_members(dirs_of(items), d);
    lemma_permutation_members(files_of(items), f);
    assert forall|i: int| 0 <= i < d.len() implies is_dir(#[trigger] d[i]) by {
        let k = choose|k: int| 0 <= k < dirs_of(items).len() && dirs_of(items)[k] == d[i];
    }
    assert forall|i: int| 0 <= i < f.len() implies !is_dir(#[trigger] f[i]) by {
        let k = choose|k: int| 0 <= k < files_of(items).len() && files_of(items)[k] == f[i];
    }
    let v = visible(d + f, show_hidden);
    if show_hidden {
        assert forall|i: int, j: int| 0 <= i < j < v.len() && is_dir(#[trigger] v[j]) implies is_dir(#[trigger] v[i]) by {
            if j < d.len() {
                assert(v[i] == d[i]);
            } else {
                assert(v[j] == f[j - d.len()]);
            }
        }
    } else {
        Seq::filter_distributes_over_add(d, f, hp);
        let df = d.filter(hp);
        let ff = f.filter(hp);
        lemma_filter_members(d, hp);
        lemma_filter_members(f, hp);
        assert(v == df + ff);
        assert forall|i: int| 0 <= i < df.len() implies is_dir(#[trigger] df[i]) by {
            let k = choose|k: int| 0 <= k < d.len() && d[k] == df[i];
        }
        assert forall|i: int| 0 <= i < ff.len() implies !is_dir(#[trigger] ff[i]) by {
            let k = choose|k: int| 0 <= k < f.len() && f[k] == ff[i];
        }
        assert forall|i: int, j: int| 0 <= i < j < v.len() && is_dir(#[trigger] v[j]) implies is_dir(#[trigger] v[i]) by {
            if j < df.len() {
                assert(v[i] == df[i]);
            } else {
                assert(v[j] == ff[j - df.len()]);
            }
        }
        assert forall|i: int| 0 <= i < v.len() implies !(#[trigger] v[i]).is_hidden by {
            if i < df.len() {
                assert(v[i] == df[i]);
            } else {
                assert(v[i] == ff[i - df.len()]);
            }
        }
    }
}

/// The directories and the other items of `s` are as many as its items.
pub proof fn lemma_partition_len(s: Seq<ItemInfo>)
    ensures
        dirs_of(s).len() + files_of(s).len() == s.len(),
    decreases s.len(),
{
    reveal(Seq::filter);
    if s.len() > 0 {
        lemma_partition_len(s.drop_last());
    }
}

/// Whether an item is a directory.
pub open spec fn is_dir(i: ItemInfo) -> bool {
    i.file_type == FileType::Directory
}

/// The directories of `s`, in order.
pub open spec fn dirs_of(s: Seq<ItemInfo>) -> Seq<ItemInfo> {
    s.filter(|i: ItemInfo| is_dir(i))
}

/// The other items of `s`, in order.
pub open spec fn files_of(s: Seq<ItemInfo>) -> Seq<ItemInfo> {
    s.filter(|i: ItemInfo| !is_dir(i))
}

/// The items that are shown: all of them, or those that are not hidden.
pub open spec fn visible(s: Seq<ItemInfo>, show_hidden: bool) -> Seq<ItemInfo> {
    if show_hidden {
        s
    } else {
        s.filter(|i: ItemInfo| !i.is_hidden)
    }
}

/// `s` sorted by name: a permutation whose names come in natural order.
pub open spec fn sorted_by_name(s: Seq<ItemInfo>, r: Seq<ItemInfo>) -> bool {
    &&& r.to_multiset() == s.to_multiset()
    &&& names_of(r) == natural_order_ignore_case(names_of(s))
}

/// Splits items into directories and the rest, keeping their order.
fn partition_dirs(v: Vec<ItemInfo>) -> (r: (Vec<ItemInfo>, Vec<ItemInfo>))
    ensures
        r.0@ == dirs_of(v@),
        r.1@ == files_of(v@),
{
    let mut v = v;
    let ghost orig = v@;
    let mut rev: Vec<ItemInfo> = Vec::new();
    while v.len() > 0
        invariant
            orig == v@ + rev@.reverse(),
        decreases v@.len(),
    {
        let ghost before_v = v@;
        let ghost before_rev = rev@;
        let x = v.pop().unwrap();
        rev.push(x);
        proof {
            assert(before_v =~= v@.push(x));
            assert(rev@.reverse() =~= seq![x] + before_rev.reverse());
            assert(v@ + rev@.reverse() =~= before_v + before_rev.reverse());
        }
    }
    let mut dirs: Vec<ItemInfo> = Vec::new();
    let mut files: Vec<ItemInfo> = Vec::new();
    let ghost mut done: Seq<ItemInfo> = Seq::empty();
    proof {
        reveal(Seq::filter);
        assert(orig =~= done + rev@.reverse());
    }
    while rev.len() > 0
        invariant
            orig == done + rev@.reverse(),
            dirs@ == dirs_of(done),
            files@ == files_of(done),
        decreases rev@.len(),
    {
        let ghost before_rev = rev@;
        let x = rev.pop().unwrap();
        proof {
            assert(before_rev =~= rev@.push(x));
            assert(before_rev.reverse() =~= seq![x] + rev@.reverse());
            let nd = done.push(x);
            assert(nd.drop_last() =~= done);
            assert(orig =~= nd + rev@.reverse());
            reveal(Seq::filter);
        }
        if x.file_type == FileType::Directory {
            dirs.push(x);
        } else {
            files.push(x);
        }
        proof {
            done = done.push(x);
        }
    }
    proof {
        assert(done =~= orig);
    }
    (dirs, files)
}

/// Leaves out hidden items.
fn drop_hidden(v: Vec<ItemInfo>) -> (r: Vec<ItemInfo>)
    ensures
        r@ == v@.filter(|i: ItemInfo| !i.is_hidden),
{
    let mut v = v;
    let ghost orig = v@;
    let mut rev: Vec<ItemInfo> = Vec::new();
    while v.len() > 0
        invariant
            orig == v@ + rev@.reverse(),
        decreases v@.len(),
    {
        let ghost before_v = v@;
        let ghost before_rev = rev@;
        let x = v.pop().unwrap();
        rev.push(x);
        proof {
            assert(before_v =~= v@.push(x));
            assert(rev@.reverse() =~= seq![x] + before_rev.reverse());
            assert(v@ + rev@.reverse() =~= before_v + before_rev.reverse());
        }
    }
    let mut kept: Vec<ItemInfo> = Vec::new();
    let ghost mut done: Seq<ItemInfo> = Seq::empty();
    proof {
        reveal(Seq::filter);
        assert(orig =~= done + rev@.reverse());
    }
    while rev.len() > 0
        invariant
            orig == done + rev@.reverse(),
            kept@ == done.filter(|i: ItemInfo| !i.is_hidden),
        decreases rev@.len(),
    {
        let ghost before_rev = rev@;
        let x = rev.pop().unwrap();
        proof {
            assert(before_rev =~= rev@.push(x));
            assert(before_rev.reverse() =~= seq![x] + rev@.reverse());
            let nd = done.push(x);
            assert(nd.drop_last() =~= done);
            assert(orig =~= nd + rev@.reverse());
            reveal(Seq::filter);
        }
        if !x.is_hidden {
            kept.push(x);
        }
        proof {
            done = done.push(x);
        }
    }
    proof {
        assert(done =~= orig);
    }
    kept
}

/// The listing of `items`: directories first, then the other items, each
/// group sorted by `sort_by`, hidden items left out unless `show_hidden`.
pub fn arrange(items: Vec<ItemInfo>, sort_by: SortKey, show_hidden: bool) -> (r: Vec<ItemInfo>)
    ensures
        match sort_by {
            SortKey::Time => r@ == visible(
                sort_by_time(dirs_of(items@)) + sort_by_time(files_of(items@)),
                show_hidden,
            ),
            SortKey::Name => exists|d: Seq<ItemInfo>, f: Seq<ItemInfo>|
                {
                    &&& sorted_by_name(dirs_of(items@), d)
                    &&& sorted_by_name(files_of(items@), f)
                    &&& r@ == visible(d + f, show_hidden)
                },
        },
{
    let (dirs, files) = partition_dirs(items);
    let mut all: Vec<ItemInfo>;
    match sort_by {
        SortKey::Name => {
            let mut d = dirs;
            let mut f = files;
            sort_by_name(&mut d);
            sort_by_name(&mut f);
            let ghost ds = d@;
            let ghost fs = f@;
            all = d;
            all.append(&mut f);
            if show_hidden {
                proof {
                    assert(all@ =~= visible(ds + fs, show_hidden));
                }
                all
            } else {
                let r = drop_hidden(all);
                proof {
                    assert(r@ =~= visible(ds + fs, show_hidden));
                }
                r
            }
        },
        SortKey::Time => {
            let d = sort_items_by_time(dirs);
            let mut f = sort_items_by_time(files);
            all = d;
            all.append(&mut f);
            if show_hidden {
                all
            } else {
                drop_hidden(all)
            }
        },
    }
}

} // verus!
