//! Ordering entries by name: the order of Rust's `str` (code point by code
//! point, a proper prefix first), and a stable insertion sort by it.

use vstd::prelude::*;
use crate::model::{Entry, str_or};
use crate::text::chars_of;
use crate::seqs::{keep, lemma_keep_append, lemma_keep_none};

verus! {

/// `a` comes strictly before `b` in lexicographic order of code points.
pub open spec fn str_lt(a: Seq<char>, b: Seq<char>) -> bool
    decreases a.len(),
{
    if b.len() == 0 {
        false
    } else if a.len() == 0 {
        true
    } else if (a[0] as u32) < (b[0] as u32) {
        true
    } else if a[0] == b[0] {
        str_lt(a.drop_first(), b.drop_first())
    } else {
        false
    }
}

/// The name an entry is sorted by: its declaration's name, or `_`.
pub open spec fn name_key(e: Entry) -> Seq<char> {
    str_or(e.entity.name, "_"@)
}

/// Where a stable insertion puts `x` into `s`, looking from index `j` on:
/// before the first entry whose name is greater than `x`'s.
pub open spec fn insert_pos_from(s: Seq<Entry>, x: Entry, j: int) -> int
    decreases s.len() - j,
{
    if j >= s.len() || j < 0 {
        s.len() as int
    } else if str_lt(name_key(x), name_key(s[j])) {
        j
    } else {
        insert_pos_from(s, x, j + 1)
    }
}

/// `s` with `x` put before the first entry whose name is greater.
pub open spec fn insert_by_name(s: Seq<Entry>, x: Entry) -> Seq<Entry> {
    s.insert(insert_pos_from(s, x, 0), x)
}

/// The entries stably sorted by name: equal names keep their order.
pub open spec fn sort_by_name(s: Seq<Entry>) -> Seq<Entry>
    decreases s.len(),
{
    if s.len() == 0 {
        Seq::empty()
    } else {
        insert_by_name(sort_by_name(s.drop_last()), s.last())
    }
}

/// The entries that references point to.
pub open spec fn deref_all(s: Seq<&Entry>) -> Seq<Entry> {
    s.map_values(|e: &Entry| *e)
}

/// Whether `a` comes strictly before `b` (the order of Rust's `str`).
pub fn lt_chars(a: &Vec<char>, b: &Vec<char>) -> (r: bool)
    ensures
        r == str_lt(a@, b@),
{
    let mut i: usize = 0;
    assert(a@.skip(0) =~= a@);
    assert(b@.skip(0) =~= b@);
    while i < a.len() && i < b.len()
        invariant
            i <= a@.len(),
            i <= b@.len(),
            a@.take(i as int) == b@.take(i as int),
            str_lt(a@, b@) == str_lt(a@.skip(i as int), b@.skip(i as int)),
        decreases a@.len() - i,
    {
        let ghost sa = a@.skip(i as int);
        let ghost sb = b@.skip(i as int);
        assert(sa[0] == a@[i as int]);
        assert(sb[0] == b@[i as int]);
        if (a[i] as u32) < (b[i] as u32) {
            return true;
        }
        if a[i] != b[i] {
            return false;
        }
        assert(sa.drop_first() =~= a@.skip(i + 1));
        assert(sb.drop_first() =~= b@.skip(i + 1));
        assert(a@.take(i + 1) =~= a@.take(i as int).push(a@[i as int]));
        assert(b@.take(i + 1) =~= b@.take(i as int).push(b@[i as int]));
        i = i + 1;
    }
    i < b.len()
}

fn name_chars(e: &Entry) -> (r: Vec<char>)
    ensures
        r@ == name_key(*e),
{
    match &e.entity.name {
        Some(n) => chars_of(n.as_str()),
        None => chars_of("_"),
    }
}

/// The entries stably sorted by name.
pub fn sort_entries_by_name<'a>(v: Vec<&'a Entry>) -> (r: Vec<&'a Entry>)
    ensures
        deref_all(r@) == sort_by_name(deref_all(v@)),
{
    let mut res: Vec<&'a Entry> = Vec::new();
    let mut keys: Vec<Vec<char>> = Vec::new();
    let mut i: usize = 0;
    while i < v.len()
        invariant
            i <= v@.len(),
            deref_all(res@) == sort_by_name(deref_all(v@.take(i as int))),
            keys@.len() == res@.len(),
            forall|k: int| 0 <= k < keys@.len() ==> (#[trigger] keys@[k])@ == name_key(*res@[k]),
        decreases v@.len() - i,
    {
        let x = v[i];
        let kx = name_chars(x);
        let mut j: usize = 0;
        while j < res.len()
            invariant
                j <= res@.len(),
                keys@.len() == res@.len(),
                forall|k: int| 0 <= k < keys@.len() ==> (#[trigger] keys@[k])@ == name_key(*res@[k]),
                kx@ == name_key(*x),
                insert_pos_from(deref_all(res@), *x, 0) == insert_pos_from(deref_all(res@), *x, j as int),
            ensures
                j <= res@.len(),
                insert_pos_from(deref_all(res@), *x, 0) == j,
            decreases res@.len() - j,
        {
            let lt = lt_chars(&kx, &keys[j]);
            assert(keys@[j as int]@ == name_key(*res@[j as int]));
            if lt {
                break;
            }
            j = j + 1;
        }
        let ghost before = res@;
        let ghost before_keys = keys@;
        res.insert(j, x);
        keys.insert(j, kx);
        assert(forall|k: int| 0 <= k < keys@.len() ==> (#[trigger] keys@[k])@ == name_key(*res@[k])) by {
            assert forall|k: int| 0 <= k < keys@.len() implies (#[trigger] keys@[k])@ == name_key(*res@[k]) by {
                if k < j {
                    assert(keys@[k] == before_keys[k]);
                } else if k > j {
                    assert(keys@[k] == before_keys[k - 1]);
                }
            }
        }
        assert(deref_all(res@) =~= deref_all(before).insert(j as int, *x));
        assert(deref_all(v@.take(i + 1)).drop_last() =~= deref_all(v@.take(i as int)));
        i = i + 1;
    }
    assert(v@.take(i as int) =~= v@);
    res
}

// ---------------------------------------------------------------------------
// The order and the sort, proved.
// ---------------------------------------------------------------------------

/// No name comes before itself.
pub proof fn lemma_str_lt_irreflexive(a: Seq<char>)
    ensures
        !str_lt(a, a),
    decreases a.len(),
{
    if a.len() > 0 {
        lemma_str_lt_irreflexive(a.drop_first());
    }
}

/// The order of names is transitive.
pub proof fn lemma_str_lt_transitive(a: Seq<char>, b: Seq<char>, c: Seq<char>)
    requires
        str_lt(a, b),
        str_lt(b, c),
    ensures
        str_lt(a, c),
    decreases a.len(),
{
    if a.len() > 0 && b.len() > 0 && c.len() > 0 && a[0] == b[0] && b[0] == c[0] {
        lemma_str_lt_transitive(a.drop_first(), b.drop_first(), c.drop_first());
    }
}

/// Of two different names, one comes before the other.
pub proof fn lemma_str_lt_total(a: Seq<char>, b: Seq<char>)
    requires
        a != b,
    ensures
        str_lt(a, b) || str_lt(b, a),
    decreases a.len(),
{
    if a.len() == 0 {
        assert(b.len() > 0) by {
            if b.len() == 0 {
                assert(a =~= b);
            }
        }
    } else if b.len() == 0 {
    } else if a[0] == b[0] {
        assert(a.drop_first() != b.drop_first()) by {
            if a.drop_first() == b.drop_first() {
                assert(a =~= seq![a[0]] + a.drop_first());
                assert(b =~= seq![b[0]] + b.drop_first());
            }
        }
        lemma_str_lt_total(a.drop_first(), b.drop_first());
    } else {
        lemma_char_code_injective(a[0], b[0]);
    }
}

/// Different characters have different code points.
pub proof fn lemma_char_code_injective(c: char, d: char)
    requires
        c != d,
    ensures
        (c as u32) != (d as u32),
{
}

/// Entries `s` are in order of name: none comes after a later one.
pub open spec fn sorted_by_name(s: Seq<Entry>) -> bool {
    forall|i: int, j: int|
        0 <= i < j < s.len() ==> !str_lt(name_key(#[trigger] s[j]), name_key(#[trigger] s[i]))
}

/// The insertion point of `x` comes after every entry whose name is not
/// greater, and before an entry whose name is greater.
pub proof fn lemma_insert_pos(s: Seq<Entry>, x: Entry, j: int)
    requires
        0 <= j <= s.len(),
    ensures
        j <= insert_pos_from(s, x, j) <= s.len(),
        forall|m: int| j <= m < insert_pos_from(s, x, j) ==> !str_lt(name_key(x), name_key(#[trigger] s[m])),
        insert_pos_from(s, x, j) < s.len() ==> str_lt(name_key(x), name_key(s[insert_pos_from(s, x, j)])),
    decreases s.len() - j,
{
    if j < s.len() && !str_lt(name_key(x), name_key(s[j])) {
        lemma_insert_pos(s, x, j + 1);
    }
}

/// Inserting by name keeps a sorted list sorted.
pub proof fn lemma_insert_sorted(s: Seq<Entry>, x: Entry)
    requires
        sorted_by_name(s),
    ensures
        sorted_by_name(insert_by_name(s, x)),
{
    lemma_insert_pos(s, x, 0);
    let p = insert_pos_from(s, x, 0);
    let r = insert_by_name(s, x);
    assert forall|i: int, j: int| 0 <= i < j < r.len() implies !str_lt(
        name_key(#[trigger] r[j]),
        name_key(#[trigger] r[i]),
    ) by {
        if j < p {
            assert(r[i] == s[i] && r[j] == s[j]);
        } else if j == p {
            assert(r[i] == s[i]);
        } else if i == p {
            assert(r[j] == s[j - 1]);
            if j - 1 > p {
                assert(!str_lt(name_key(s[j - 1]), name_key(s[p])));
            } else {
                lemma_str_lt_irreflexive(name_key(s[p]));
            }
            if str_lt(name_key(s[j - 1]), name_key(x)) {
                lemma_str_lt_transitive(name_key(s[j - 1]), name_key(x), name_key(s[p]));
            }
        } else if i < p {
            assert(r[i] == s[i] && r[j] == s[j - 1]);
        } else {
            assert(r[i] == s[i - 1] && r[j] == s[j - 1]);
        }
    }
}

/// Inserting adds exactly the inserted entry.
pub proof fn lemma_insert_multiset(s: Seq<Entry>, x: Entry)
    ensures
        insert_by_name(s, x).to_multiset() =~= s.to_multiset().insert(x),
{
    broadcast use vstd::seq_lib::group_to_multiset_ensures;

    lemma_insert_pos(s, x, 0);
    let p = insert_pos_from(s, x, 0);
    let r = insert_by_name(s, x);
    assert(r.remove(p) =~= s);
    assert(r[p] == x);
    assert(r.to_multiset().count(x) > 0);
}

/// Sorting by name puts the entries in order of name.
pub proof fn law_sort_by_name_sorted(s: Seq<Entry>)
    ensures
        sorted_by_name(sort_by_name(s)),
    decreases s.len(),
{
    if s.len() > 0 {
        law_sort_by_name_sorted(s.drop_last());
        lemma_insert_sorted(sort_by_name(s.drop_last()), s.last());
    }
}

/// Sorting by name neither loses nor adds an entry.
pub proof fn law_sort_by_name_permutes(s: Seq<Entry>)
    ensures
        sort_by_name(s).to_multiset() =~= s.to_multiset(),
    decreases s.len(),
{
    broadcast use vstd::seq_lib::group_to_multiset_ensures;

    if s.len() > 0 {
        law_sort_by_name_permutes(s.drop_last());
        lemma_insert_multiset(sort_by_name(s.drop_last()), s.last());
        assert(s.drop_last().push(s.last()) =~= s);
    }
}

/// The entries whose name is `k`.
pub open spec fn named(s: Seq<Entry>, k: Seq<char>) -> Seq<Entry> {
    keep(s, |e: Entry| name_key(e) == k)
}

/// After the insertion point of `x` in a sorted list, no entry has `x`'s
/// name.
pub proof fn lemma_after_insert_pos(s: Seq<Entry>, x: Entry)
    requires
        sorted_by_name(s),
    ensures
        forall|m: int|
            insert_pos_from(s, x, 0) <= m < s.len() ==> name_key(#[trigger] s[m]) != name_key(x),
{
    lemma_insert_pos(s, x, 0);
    let p = insert_pos_from(s, x, 0);
    assert forall|m: int| p <= m < s.len() implies name_key(#[trigger] s[m]) != name_key(x) by {
        if name_key(s[m]) == name_key(x) {
            if m > p {
                assert(!str_lt(name_key(s[m]), name_key(s[p])));
            } else {
                lemma_str_lt_irreflexive(name_key(x));
            }
        }
    }
}

/// Inserting `x` by name puts it after every entry of the same name.
pub proof fn lemma_insert_named(s: Seq<Entry>, x: Entry, k: Seq<char>)
    requires
        sorted_by_name(s),
    ensures
        named(insert_by_name(s, x), k) == if name_key(x) == k {
            named(s, k).push(x)
        } else {
            named(s, k)
        },
{
    lemma_insert_pos(s, x, 0);
    lemma_after_insert_pos(s, x);
    let p = insert_pos_from(s, x, 0);
    let pk = |e: Entry| name_key(e) == k;
    let a = s.take(p);
    let b = s.skip(p);
    assert(s =~= a + b);
    assert(insert_by_name(s, x) =~= (a + seq![x]) + b);
    lemma_keep_append(a, b, pk);
    lemma_keep_append(a + seq![x], b, pk);
    lemma_keep_append(a, seq![x], pk);
    assert(seq![x].drop_last() =~= Seq::<Entry>::empty());
    assert(keep(seq![x], pk) == if pk(x) { seq![x] } else { Seq::<Entry>::empty() }) by {
        assert(keep(Seq::<Entry>::empty(), pk) == Seq::<Entry>::empty());
    }
    if name_key(x) == k {
        assert forall|m: int| 0 <= m < b.len() implies !pk(#[trigger] b[m]) by {
            assert(b[m] == s[p + m]);
        }
        lemma_keep_none(b, pk);
        assert(keep(a, pk) + keep(b, pk) =~= keep(a, pk));
        assert(keep(a, pk) + seq![x] =~= keep(a, pk).push(x));
        assert(keep(a, pk).push(x) + keep(b, pk) =~= keep(a, pk).push(x));
    } else {
        assert(keep(a, pk) + Seq::<Entry>::empty() =~= keep(a, pk));
    }
}

/// Sorting by name is stable: the entries of any one name keep their order.
pub proof fn law_sort_by_name_stable(s: Seq<Entry>, k: Seq<char>)
    ensures
        named(sort_by_name(s), k) == named(s, k),
    decreases s.len(),
{
    if s.len() > 0 {
        law_sort_by_name_stable(s.drop_last(), k);
        law_sort_by_name_sorted(s.drop_last());
        lemma_insert_named(sort_by_name(s.drop_last()), s.last(), k);
    }
}

} // verus!
