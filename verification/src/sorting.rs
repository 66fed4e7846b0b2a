//! Stable sorting by a key, with its specification.

use vstd::prelude::*;
use crate::text::{lex_lt, lemma_lex_irreflexive, lemma_lex_total, lemma_lex_transitive};

verus! {

/// Items ordered by a key read as a sequence of integers and compared
/// lexicographically (a text's code points, or a single number).
pub trait SortKey: Sized {
    /// The key of an item.
    spec fn sort_key(&self) -> Seq<int>;

    /// Whether this item's key comes strictly before the other's.
    fn key_lt(&self, other: &Self) -> (r: bool)
        ensures
            r == lex_lt(self.sort_key(), other.sort_key()),
    ;
}

/// `a`'s key comes before or equals `b`'s.
pub open spec fn key_le<T: SortKey>(a: T, b: T) -> bool {
    !lex_lt(b.sort_key(), a.sort_key())
}

/// Items in non-decreasing order of key.
pub open spec fn sorted_by_key<T: SortKey>(s: Seq<T>) -> bool {
    forall|i: int, j: int| 0 <= i < j < s.len() ==> key_le(#[trigger] s[i], #[trigger] s[j])
}

/// Whether an item's key is `k`.
pub open spec fn has_key<T: SortKey>(k: Seq<int>) -> spec_fn(T) -> bool {
    |x: T| x.sort_key() == k
}

/// The items whose key is `k`, in order.
pub open spec fn with_key<T: SortKey>(s: Seq<T>, k: Seq<int>) -> Seq<T> {
    s.filter(has_key(k))
}

/// `r` is `s` sorted stably by key: in key order, and for every key the
/// items with that key appear in `r` as they did in `s`. These two facts
/// determine `r` from `s`.
pub open spec fn stably_sorted<T: SortKey>(s: Seq<T>, r: Seq<T>) -> bool {
    &&& sorted_by_key(r)
    &&& forall|k: Seq<int>| #[trigger] with_key(r, k) == with_key(s, k)
}

proof fn lemma_le_transitive(a: Seq<int>, b: Seq<int>, c: Seq<int>)
    requires
        !lex_lt(b, a),
        !lex_lt(c, b),
    ensures
        !lex_lt(c, a),
{
    lemma_lex_total(a, b);
    lemma_lex_total(b, c);
    if lex_lt(c, a) {
        if a == b {
        } else if b == c {
        } else {
            lemma_lex_transitive(a, b, c);
            lemma_lex_transitive(c, a, c);
            lemma_lex_irreflexive(c);
        }
    }
}

proof fn lemma_with_key_single<T: SortKey>(x: T, k: Seq<int>)
    ensures
        with_key(seq![x], k) == (if x.sort_key() == k { seq![x] } else { Seq::<T>::empty() }),
{
    reveal(Seq::filter);
    assert(seq![x].drop_last() =~= Seq::<T>::empty());
    assert(with_key(Seq::<T>::empty(), k) =~= Seq::<T>::empty());
}

proof fn lemma_with_key_none<T: SortKey>(s: Seq<T>, k: Seq<int>)
    requires
        forall|i: int| 0 <= i < s.len() ==> (#[trigger] s[i]).sort_key() != k,
    ensures
        with_key(s, k) == Seq::<T>::empty(),
    decreases s.len(),
{
    reveal(Seq::filter);
    if s.len() > 0 {
        lemma_with_key_none(s.drop_last(), k);
        assert(s.last() == s[s.len() - 1]);
    } else {
        assert(with_key(s, k) =~= Seq::<T>::empty());
    }
}

/// Inserting an item before the first item whose key is not smaller keeps
/// the order, and puts the item first among those of its key.
proof fn lemma_insert_sorted<T: SortKey>(r: Seq<T>, p: int, x: T)
    requires
        sorted_by_key(r),
        0 <= p <= r.len(),
        forall|i: int| 0 <= i < p ==> lex_lt((#[trigger] r[i]).sort_key(), x.sort_key()),
        p < r.len() ==> !lex_lt(r[p].sort_key(), x.sort_key()),
    ensures
        sorted_by_key(r.insert(p, x)),
        forall|k: Seq<int>| #[trigger] with_key(r.insert(p, x), k) == with_key(seq![x] + r, k),
{
    let r2 = r.insert(p, x);
    let kx = x.sort_key();
    assert forall|i: int| p <= i < r.len() implies !lex_lt(#[trigger] r[i].sort_key(), kx) by {
        if i > p {
            assert(key_le(r[p], r[i]));
            lemma_le_transitive(kx, r[p].sort_key(), r[i].sort_key());
        }
    }
    assert forall|i: int, j: int| 0 <= i < j < r2.len() implies key_le(#[trigger] r2[i], #[trigger] r2[j]) by {
        if j < p {
        } else if j == p {
            assert(r2[i] == r[i]);
            if lex_lt(kx, r[i].sort_key()) {
                lemma_lex_transitive(r[i].sort_key(), kx, r[i].sort_key());
                lemma_lex_irreflexive(r[i].sort_key());
            }
        } else if i < p {
            assert(r2[i] == r[i]);
            assert(r2[j] == r[j - 1]);
            if lex_lt(r[j - 1].sort_key(), r[i].sort_key()) {
                lemma_lex_transitive(r[j - 1].sort_key(), r[i].sort_key(), kx);
            }
        } else if i == p {
            assert(r2[j] == r[j - 1]);
        } else {
            assert(r2[i] == r[i - 1]);
            assert(r2[j] == r[j - 1]);
        }
    }
    assert forall|k: Seq<int>| #[trigger] with_key(r2, k) == with_key(seq![x] + r, k) by {
        let pre = r.take(p);
        let post = r.skip(p);
        assert(r =~= pre + post);
        assert(r2 =~= pre + (seq![x] + post));
        Seq::filter_distributes_over_add(pre, seq![x] + post, has_key(k));
        Seq::filter_distributes_over_add(seq![x], post, has_key(k));
        Seq::filter_distributes_over_add(seq![x], r, has_key(k));
        Seq::filter_distributes_over_add(pre, post, has_key(k));
        lemma_with_key_single(x, k);
        if k == kx {
            assert forall|i: int| 0 <= i < pre.len() implies (#[trigger] pre[i]).sort_key() != k by {
                assert(pre[i] == r[i]);
                lemma_lex_irreflexive(kx);
            }
            lemma_with_key_none(pre, k);
            assert(with_key(r2, k) =~= with_key(seq![x] + r, k));
        } else {
            assert(with_key(r2, k) =~= with_key(seq![x] + r, k));
        }
    }
}

/// Sorts items by key, keeping items of equal key in their original order.
pub fn sort_by_key<T: SortKey>(v: Vec<T>) -> (r: Vec<T>)
    ensures
        stably_sorted(v@, r@),
{
    let ghost s = v@;
    let mut v = v;
    let mut r: Vec<T> = Vec::new();
    while v.len() > 0
        invariant
            v@ == s.take(v@.len() as int),
            v@.len() <= s.len(),
            sorted_by_key(r@),
            forall|k: Seq<int>| #[trigger] with_key(r@, k) == with_key(s.skip(v@.len() as int), k),
        decreases v@.len(),
    {
        let ghost i = v@.len() as int;
        let x = v.pop().unwrap();
        assert(x == s[i - 1]);
        assert(v@ =~= s.take(i - 1));
        let n = r.len();
        let mut p: usize = 0;
        while p < n && r[p].key_lt(&x)
            invariant
                p <= n,
                n == r@.len(),
                forall|j: int| 0 <= j < p ==> lex_lt((#[trigger] r@[j]).sort_key(), x.sort_key()),
            decreases n - p,
        {
            p = p + 1;
        }
        proof {
            lemma_insert_sorted(r@, p as int, x);
            assert(s.skip(i - 1) =~= seq![x] + s.skip(i));
            assert forall|k: Seq<int>| #[trigger] with_key(seq![x] + r@, k) == with_key(s.skip(i - 1), k) by {
                Seq::filter_distributes_over_add(seq![x], r@, has_key(k));
                Seq::filter_distributes_over_add(seq![x], s.skip(i), has_key(k));
                assert(with_key(r@, k) == with_key(s.skip(i), k));
            }
        }
        r.insert(p, x);
    }
    assert(s.skip(0) =~= s);
    r
}


/// The contents of a sequence of items.
pub open spec fn contents<T: View>(s: Seq<T>) -> Seq<T::V> {
    s.map_values(|x: T| x@)
}

/// `r` is the stable sort of items whose contents are `expected`, where
/// `key` gives the sort key of an item from its content: `r` is in key
/// order, and for every key the contents of the items with that key are
/// those of `expected`, in order.
pub open spec fn sorted_contents<T: SortKey + View>(
    r: Seq<T>,
    expected: Seq<T::V>,
    key: spec_fn(T::V) -> Seq<int>,
) -> bool {
    &&& sorted_by_key(r)
    &&& forall|k: Seq<int>| #[trigger] contents(with_key(r, k)) == expected.filter(|v: T::V| key(v) == k)
}

/// Sorting items whose contents are `expected` yields their sorted
/// contents.
pub proof fn lemma_sorted_contents<T: SortKey + View>(
    m: Seq<T>,
    r: Seq<T>,
    expected: Seq<T::V>,
    key: spec_fn(T::V) -> Seq<int>,
)
    requires
        stably_sorted(m, r),
        contents(m) == expected,
        forall|x: T| #[trigger] x.sort_key() == key(x@),
    ensures
        sorted_contents(r, expected, key),
{
    assert forall|k: Seq<int>| #[trigger] contents(with_key(r, k)) == expected.filter(|v: T::V| key(v) == k) by {
        assert(with_key(r, k) == with_key(m, k));
        vstd::seq_lib::lemma_filter_view_commute(m, |x: T| x.sort_key() == k, |v: T::V| key(v) == k);
    }
}


proof fn lemma_filter_filter<T>(s: Seq<T>, p: spec_fn(T) -> bool, q: spec_fn(T) -> bool)
    requires
        forall|y: T| #[trigger] q(y) ==> p(y),
    ensures
        s.filter(p).filter(q) == s.filter(q),
    decreases s.len(),
{
    reveal(Seq::filter);
    if s.len() > 0 {
        let t = s.drop_last();
        lemma_filter_filter(t, p, q);
        t.lemma_filter_push(s.last(), p);
        t.lemma_filter_push(s.last(), q);
        t.filter(p).lemma_filter_push(s.last(), q);
        assert(s =~= t.push(s.last()));
    } else {
        assert(s.filter(p) =~= s);
    }
}

/// Sorting keeps every item: each item occurs in the sorted sequence at the
/// same places relative to its equals, exactly as often as in the input.
pub proof fn law_sort_keeps_items<T: SortKey>(s: Seq<T>, r: Seq<T>, x: T)
    requires
        stably_sorted(s, r),
    ensures
        r.filter(|y: T| y == x) == s.filter(|y: T| y == x),
{
    let k = x.sort_key();
    let p = has_key::<T>(k);
    let q = |y: T| y == x;
    assert(with_key(r, k) == with_key(s, k));
    lemma_filter_filter(r, p, q);
    lemma_filter_filter(s, p, q);
}

/// Sorting keeps the number of items.
pub proof fn law_sort_keeps_length<T: SortKey>(s: Seq<T>, r: Seq<T>)
    requires
        stably_sorted(s, r),
    ensures
        r.len() == s.len(),
    decreases s.len(),
{
    lemma_length_by_keys(s, r, s.len() + r.len());
}

/// Two sequences with the same items for every key have the same length
/// (by induction on the total length).
proof fn lemma_length_by_keys<T: SortKey>(s: Seq<T>, r: Seq<T>, n: nat)
    requires
        forall|k: Seq<int>| #[trigger] with_key(r, k) == with_key(s, k),
        s.len() + r.len() == n,
    ensures
        r.len() == s.len(),
    decreases n,
{
    if s.len() == 0 {
        if r.len() > 0 {
            let k = r[0].sort_key();
            assert(with_key(r, k).len() > 0) by {
                r.lemma_filter_contains(has_key(k), 0);
            }
            lemma_with_key_none(s, k);
        }
    } else {
        let x = s.last();
        let k = x.sort_key();
        // remove the last item of that key from both
        let ws = with_key(s, k);
        let wr = with_key(r, k);
        assert(ws.len() > 0) by {
            s.lemma_filter_contains(has_key(k), s.len() - 1);
        }
        let ps = remove_last_with_key(s, k);
        let pr = remove_last_with_key(r, k);
        lemma_remove_last_with_key(s, k);
        lemma_remove_last_with_key(r, k);
        assert forall|k2: Seq<int>| #[trigger] with_key(pr, k2) == with_key(ps, k2) by {
            assert(with_key(r, k2) == with_key(s, k2));
        }
        lemma_length_by_keys(ps, pr, (n - 2) as nat);
    }
}

/// The sequence without its last item of key `k`.
spec fn remove_last_with_key<T: SortKey>(s: Seq<T>, k: Seq<int>) -> Seq<T>
    decreases s.len(),
{
    if s.len() == 0 {
        s
    } else if s.last().sort_key() == k {
        s.drop_last()
    } else {
        remove_last_with_key(s.drop_last(), k).push(s.last())
    }
}

proof fn lemma_remove_last_with_key<T: SortKey>(s: Seq<T>, k: Seq<int>)
    ensures
        with_key(s, k).len() > 0 ==> remove_last_with_key(s, k).len() == s.len() - 1,
        with_key(s, k).len() > 0 ==> with_key(remove_last_with_key(s, k), k) == with_key(s, k).drop_last(),
        forall|k2: Seq<int>| k2 != k ==> #[trigger] with_key(remove_last_with_key(s, k), k2) == with_key(s, k2),
    decreases s.len(),
{
    reveal(Seq::filter);
    if s.len() > 0 {
        let t = s.drop_last();
        lemma_remove_last_with_key(t, k);
        if s.last().sort_key() == k {
            assert(with_key(s, k) == with_key(t, k).push(s.last()));
            assert(with_key(s, k).drop_last() =~= with_key(t, k));
        } else {
            let u = remove_last_with_key(t, k);
            assert(u.push(s.last()).drop_last() =~= u);
            assert(with_key(s, k) == with_key(t, k));
            assert(with_key(u.push(s.last()), k) == with_key(u, k));
            assert forall|k2: Seq<int>| k2 != k implies #[trigger] with_key(u.push(s.last()), k2) == with_key(s, k2) by {
                assert(with_key(u.push(s.last()), k2) == if s.last().sort_key() == k2 {
                    with_key(u, k2).push(s.last())
                } else {
                    with_key(u, k2)
                });
            }
        }
    }
}


/// An item of key `k` in a sorted sequence comes no later than the first
/// position whose key is above `k`; in particular the first item's key is
/// the least key present.
proof fn lemma_first_key_least<T: SortKey>(r: Seq<T>, j: int)
    requires
        sorted_by_key(r),
        0 < j < r.len(),
    ensures
        key_le(r[0], r[j]),
{
}

/// Sorting is deterministic: a sequence has exactly one stable sort.
pub proof fn law_sort_unique<T: SortKey>(s: Seq<T>, r1: Seq<T>, r2: Seq<T>)
    requires
        stably_sorted(s, r1),
        stably_sorted(s, r2),
    ensures
        r1 == r2,
    decreases r1.len(),
{
    law_sort_keeps_length(s, r1);
    law_sort_keeps_length(s, r2);
    if r1.len() == 0 {
        assert(r1 =~= r2);
    } else {
        let k1 = r1[0].sort_key();
        let k2 = r2[0].sort_key();
        assert(with_key(r1, k1).len() > 0) by {
            r1.lemma_filter_contains(has_key(k1), 0);
        }
        assert(with_key(r2, k2).len() > 0) by {
            r2.lemma_filter_contains(has_key(k2), 0);
        }
        assert(with_key(r1, k1) == with_key(r2, k1));
        assert(with_key(r1, k2) == with_key(r2, k2));
        // some item of r2 has key k1, so k2 <= k1; and symmetrically
        let w1 = with_key(r2, k1)[0];
        assert(with_key(r2, k1).contains(w1));
        r2.lemma_filter_contains_rev(has_key(k1), w1);
        let j2 = choose|j: int| 0 <= j < r2.len() && r2[j] == w1;
        r2.lemma_filter_pred(has_key(k1), 0);
        assert(w1.sort_key() == k1);
        if j2 > 0 {
            lemma_first_key_least(r2, j2);
        }
        let w2 = with_key(r1, k2)[0];
        assert(with_key(r1, k2).contains(w2));
        r1.lemma_filter_contains_rev(has_key(k2), w2);
        let j1 = choose|j: int| 0 <= j < r1.len() && r1[j] == w2;
        r1.lemma_filter_pred(has_key(k2), 0);
        if j1 > 0 {
            lemma_first_key_least(r1, j1);
        }
        crate::text::lemma_lex_total(k1, k2);
        assert(k1 == k2);
        let t1 = r1.drop_first();
        let t2 = r2.drop_first();
        assert(r1 =~= seq![r1[0]] + t1);
        assert(r2 =~= seq![r2[0]] + t2);
        t1.lemma_filter_prepend(r1[0], has_key(k1));
        t2.lemma_filter_prepend(r2[0], has_key(k1));
        assert(with_key(r1, k1) == seq![r1[0]] + with_key(t1, k1));
        assert(with_key(r2, k1) == seq![r2[0]] + with_key(t2, k1));
        assert(r1[0] == with_key(r1, k1)[0]);
        assert(r2[0] == with_key(r2, k1)[0]);
        assert forall|k: Seq<int>| #[trigger] with_key(t2, k) == with_key(t1, k) by {
            t1.lemma_filter_prepend(r1[0], has_key(k));
            t2.lemma_filter_prepend(r2[0], has_key(k));
            assert(with_key(r1, k) == with_key(r2, k));
            if k == k1 {
                assert(with_key(t1, k) =~= with_key(r1, k).drop_first());
                assert(with_key(t2, k) =~= with_key(r2, k).drop_first());
            } else {
                assert(with_key(t1, k) =~= with_key(r1, k));
                assert(with_key(t2, k) =~= with_key(r2, k));
            }
        }
        assert(sorted_by_key(t1));
        assert(sorted_by_key(t2));
        law_sort_unique(t1, t1, t2);
        assert(r1 =~= r2);
    }
}

} // verus!
