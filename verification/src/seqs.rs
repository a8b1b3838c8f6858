//! Two list shapes the formatters use everywhere: a list wrapped between two
//! delimiters, and a list with a separator between each pair of neighbours.

use vstd::prelude::*;

verus! {

/// `s` with `sep` between each pair of neighbours: `[a, sep, b, sep, c]`.
pub open spec fn interleave<A>(s: Seq<A>, sep: A) -> Seq<A> {
    Seq::new(
        if s.len() == 0 { 0 } else { (2 * s.len() - 1) as nat },
        |i: int| if i % 2 == 0 { s[i / 2] } else { sep },
    )
}

/// `s` with `start` put in front and `end` put behind.
pub open spec fn wrapped<A>(s: Seq<A>, start: A, end: A) -> Seq<A> {
    seq![start] + s + seq![end]
}

/// The items of `s` that satisfy `p`, in order.
pub open spec fn keep<A>(s: Seq<A>, p: spec_fn(A) -> bool) -> Seq<A>
    decreases s.len(),
{
    if s.len() == 0 {
        Seq::empty()
    } else if p(s.last()) {
        keep(s.drop_last(), p).push(s.last())
    } else {
        keep(s.drop_last(), p)
    }
}

/// Extending a prefix by one item extends what `keep` keeps by that item
/// when, and only when, the item satisfies the predicate.
pub proof fn lemma_keep_take<A>(s: Seq<A>, p: spec_fn(A) -> bool, i: int)
    requires
        0 <= i < s.len(),
    ensures
        keep(s.take(i + 1), p) == if p(s[i]) {
            keep(s.take(i), p).push(s[i])
        } else {
            keep(s.take(i), p)
        },
{
    assert(s.take(i + 1).drop_last() =~= s.take(i));
}

/// `keep` of two lists one after the other is the two `keep`s one after the
/// other.
pub proof fn lemma_keep_append<A>(a: Seq<A>, b: Seq<A>, p: spec_fn(A) -> bool)
    ensures
        keep(a + b, p) == keep(a, p) + keep(b, p),
    decreases b.len(),
{
    if b.len() == 0 {
        assert(a + b =~= a);
        assert(keep(a, p) + keep(b, p) =~= keep(a, p));
    } else {
        assert((a + b).drop_last() =~= a + b.drop_last());
        assert((a + b).last() == b.last());
        lemma_keep_append(a, b.drop_last(), p);
        if p(b.last()) {
            assert(keep(a, p) + keep(b.drop_last(), p).push(b.last()) =~= (keep(a, p) + keep(
                b.drop_last(),
                p,
            )).push(b.last()));
        }
    }
}

/// Where no item satisfies the predicate, `keep` keeps nothing.
pub proof fn lemma_keep_none<A>(s: Seq<A>, p: spec_fn(A) -> bool)
    requires
        forall|i: int| 0 <= i < s.len() ==> !p(#[trigger] s[i]),
    ensures
        keep(s, p) == Seq::<A>::empty(),
    decreases s.len(),
{
    if s.len() > 0 {
        assert(!p(s[s.len() - 1]));
        lemma_keep_none(s.drop_last(), p);
    }
}

/// What `keep` keeps is in `s` and satisfies `p`.
pub proof fn lemma_keep_kept<A>(s: Seq<A>, p: spec_fn(A) -> bool, x: A)
    requires
        keep(s, p).contains(x),
    ensures
        s.contains(x),
        p(x),
    decreases s.len(),
{
    if s.len() > 0 {
        let k = keep(s, p);
        let i = choose|i: int| 0 <= i < k.len() && k[i] == x;
        if p(s.last()) && i == k.len() - 1 {
            assert(s[s.len() - 1] == x);
        } else {
            assert(keep(s.drop_last(), p)[i] == x);
            lemma_keep_kept(s.drop_last(), p, x);
            let j = choose|j: int| 0 <= j < s.drop_last().len() && s.drop_last()[j] == x;
            assert(s[j] == x);
        }
    }
}

/// Every item of `s` that satisfies `p` is kept.
pub proof fn lemma_keep_keeps<A>(s: Seq<A>, p: spec_fn(A) -> bool, i: int)
    requires
        0 <= i < s.len(),
        p(s[i]),
    ensures
        keep(s, p).contains(s[i]),
    decreases s.len(),
{
    if i == s.len() - 1 {
        assert(keep(s, p).last() == s[i]);
    } else {
        assert(s.drop_last()[i] == s[i]);
        lemma_keep_keeps(s.drop_last(), p, i);
        let j = choose|j: int| 0 <= j < keep(s.drop_last(), p).len() && keep(s.drop_last(), p)[j] == s[i];
        if p(s.last()) {
            assert(keep(s, p)[j] == s[i]);
        }
    }
}

/// Puts `start` in front of the list and `end` behind it.
pub fn surround<T>(v: Vec<T>, start: T, end: T) -> (r: Vec<T>)
    ensures
        r@ == wrapped(v@, start, end),
{
    let mut r = v;
    r.insert(0, start);
    r.push(end);
    assert(r@ =~= wrapped(v@, start, end));
    r
}

/// Puts a fresh value made by `separator` between each pair of neighbours.
/// Nothing is added to a list of fewer than two items.
pub fn insert_between<T, F: Fn() -> T>(v: Vec<T>, separator: F) -> (r: Vec<T>)
    requires
        separator.requires(()),
    ensures
        r@.len() == if v@.len() == 0 { 0 } else { 2 * v@.len() - 1 },
        forall|i: int| 0 <= i < v@.len() ==> #[trigger] r@[2 * i] == v@[i],
        forall|i: int| 0 <= i < v@.len() - 1 ==> separator.ensures((), #[trigger] r@[2 * i + 1]),
{
    let mut res: Vec<T> = Vec::new();
    let mut first = true;
    let mut items = v;
    let ghost orig = items@;
    let n = items.len();
    let mut k: usize = 0;
    while k < n
        invariant
            n == orig.len(),
            separator.requires(()),
            items@.len() == n - k,
            forall|j: int| 0 <= j < n - k ==> items@[j] == orig[k + j],
            first <==> k == 0,
            res@.len() == if k == 0 { 0 } else { 2 * k - 1 },
            forall|i: int| 0 <= i < k ==> #[trigger] res@[2 * i] == orig[i],
            forall|i: int| 0 <= i < k - 1 ==> separator.ensures((), #[trigger] res@[2 * i + 1]),
        decreases n - k,
    {
        let item = items.remove(0);
        if !first {
            let s = separator();
            res.push(s);
        }
        first = false;
        res.push(item);
        k = k + 1;
    }
    res
}

} // verus!
