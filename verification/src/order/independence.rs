//! Why the order in which records come does not matter: ordering commutes
//! with making records of records, and an ordered run of given records is
//! unique where the key identifies the record.

use vstd::prelude::*;
use crate::order::{
    insert_sorted, is_sorted, key_lt, lemma_insert_position,
    lemma_key_le_lt, lemma_key_lt_connected, lemma_stable_sort_permutes,
    lemma_stable_sort_sorted, stable_sort, SortKey, SortKeyed,
};
use crate::text::lemma_bytes_lt_irreflexive;

verus! {

/// Where a record with key `k` goes into `s`: behind the last record that
/// does not sort after `k`.
pub open spec fn upper_bound<T: SortKeyed>(s: Seq<T>, k: SortKey) -> int
    decreases s.len(),
{
    if s.len() == 0 {
        0
    } else if key_lt(k, s.last().sort_key()) {
        upper_bound(s.drop_last(), k)
    } else {
        s.len() as int
    }
}

/// The upper bound of `k` lies in `s`; every record from it on sorts after
/// `k`, the record before it does not.
pub proof fn lemma_upper_bound<T: SortKeyed>(s: Seq<T>, k: SortKey)
    ensures
        0 <= upper_bound(s, k) <= s.len(),
        forall|i: int| upper_bound(s, k) <= i < s.len() ==> key_lt(k, #[trigger] s[i].sort_key()),
        upper_bound(s, k) > 0 ==> !key_lt(k, s[upper_bound(s, k) - 1].sort_key()),
    decreases s.len(),
{
    if s.len() > 0 && key_lt(k, s.last().sort_key()) {
        let t = s.drop_last();
        lemma_upper_bound(t, k);
        assert forall|i: int| upper_bound(s, k) <= i < s.len() implies key_lt(
            k,
            #[trigger] s[i].sort_key(),
        ) by {
            if i < t.len() {
                assert(t[i] == s[i]);
            }
        }
        if upper_bound(s, k) > 0 {
            assert(t[upper_bound(s, k) - 1] == s[upper_bound(s, k) - 1]);
        }
    }
}

/// `insert_sorted` puts a record in at the upper bound of its key.
pub proof fn lemma_insert_at_upper_bound<T: SortKeyed>(s: Seq<T>, x: T)
    ensures
        insert_sorted(s, x) == s.insert(upper_bound(s, x.sort_key()), x),
{
    lemma_upper_bound(s, x.sort_key());
    lemma_insert_position(s, x, upper_bound(s, x.sort_key()));
}

/// Records behind which `k` sorts do not move its upper bound.
pub proof fn lemma_upper_bound_skips_greater<T: SortKeyed>(a: Seq<T>, b: Seq<T>, k: SortKey)
    requires
        forall|i: int| 0 <= i < b.len() ==> key_lt(k, #[trigger] b[i].sort_key()),
    ensures
        upper_bound(a + b, k) == upper_bound(a, k),
    decreases b.len(),
{
    if b.len() == 0 {
        assert(a + b =~= a);
    } else {
        assert((a + b).last() == b.last());
        assert((a + b).drop_last() =~= a + b.drop_last());
        lemma_upper_bound_skips_greater(a, b.drop_last(), k);
    }
}

/// `s` with the records of `b` put in one after the other.
pub open spec fn insert_all<T: SortKeyed>(s: Seq<T>, b: Seq<T>) -> Seq<T>
    decreases b.len(),
{
    if b.len() == 0 {
        s
    } else {
        insert_sorted(insert_all(s, b.drop_last()), b.last())
    }
}

/// Ordering a run and then putting in a second run is ordering both.
pub proof fn lemma_sort_concat<T: SortKeyed>(a: Seq<T>, b: Seq<T>)
    ensures
        stable_sort(a + b) == insert_all(stable_sort(a), b),
    decreases b.len(),
{
    if b.len() == 0 {
        assert(a + b =~= a);
    } else {
        assert((a + b).last() == b.last());
        assert((a + b).drop_last() =~= a + b.drop_last());
        lemma_sort_concat(a, b.drop_last());
    }
}

/// Records that share the key `k` go into `s` as one block, in their order,
/// at the upper bound of `k`.
pub proof fn lemma_insert_block<T: SortKeyed>(s: Seq<T>, b: Seq<T>, k: SortKey)
    requires
        forall|i: int| 0 <= i < b.len() ==> (#[trigger] b[i]).sort_key() == k,
    ensures
        insert_all(s, b) == s.subrange(0, upper_bound(s, k)) + b + s.subrange(
            upper_bound(s, k),
            s.len() as int,
        ),
    decreases b.len(),
{
    lemma_upper_bound(s, k);
    let j = upper_bound(s, k);
    if b.len() == 0 {
        assert(s =~= s.subrange(0, j) + b + s.subrange(j, s.len() as int));
    } else {
        let head = b.drop_last();
        let x = b.last();
        lemma_insert_block(s, head, k);
        let r = insert_all(s, head);
        let at = j + head.len();
        assert(r.len() == s.len() + head.len());
        assert forall|i: int| at <= i < r.len() implies key_lt(
            x.sort_key(),
            #[trigger] r[i].sort_key(),
        ) by {
            assert(r[i] == s[i - head.len()]);
        }
        if at > 0 {
            if head.len() > 0 {
                assert(r[at - 1] == head[head.len() - 1]);
                lemma_bytes_lt_irreflexive(k.hash);
            } else {
                assert(r[at - 1] == s[j - 1]);
            }
        }
        lemma_insert_position(r, x, at);
        assert(r.insert(at, x) =~= s.subrange(0, j) + b + s.subrange(j, s.len() as int));
    }
}

/// The records that `f` makes of each record of `s`, one run after the other.
pub open spec fn flat<T, E>(s: Seq<T>, f: spec_fn(T) -> Seq<E>) -> Seq<E>
    decreases s.len(),
{
    if s.len() == 0 {
        Seq::empty()
    } else {
        flat(s.drop_last(), f) + f(s.last())
    }
}

/// The records made of two runs are those of the first, then those of the second.
pub proof fn lemma_flat_concat<T, E>(a: Seq<T>, b: Seq<T>, f: spec_fn(T) -> Seq<E>)
    ensures
        flat(a + b, f) == flat(a, f) + flat(b, f),
    decreases b.len(),
{
    if b.len() == 0 {
        assert(a + b =~= a);
        assert(flat(a, f) + flat(b, f) =~= flat(a, f));
    } else {
        assert((a + b).last() == b.last());
        assert((a + b).drop_last() =~= a + b.drop_last());
        lemma_flat_concat(a, b.drop_last(), f);
        assert(flat(a + b, f) =~= flat(a, f) + flat(b, f));
    }
}

/// Whether every record that `f` makes has the key of the record it is made of.
pub open spec fn keeps_key<T: SortKeyed, E: SortKeyed>(f: spec_fn(T) -> Seq<E>) -> bool {
    forall|t: T, i: int| 0 <= i < f(t).len() ==> (#[trigger] f(t)[i]).sort_key() == t.sort_key()
}

/// Every record of `flat(s, f)` has the key of a record of `s`.
pub proof fn lemma_flat_key<T: SortKeyed, E: SortKeyed>(
    s: Seq<T>,
    f: spec_fn(T) -> Seq<E>,
    at: int,
) -> (i: int)
    requires
        keeps_key(f),
        0 <= at < flat(s, f).len(),
    ensures
        0 <= i < s.len(),
        flat(s, f)[at].sort_key() == s[i].sort_key(),
    decreases s.len(),
{
    let head = flat(s.drop_last(), f);
    if at < head.len() {
        lemma_flat_key(s.drop_last(), f, at)
    } else {
        assert(flat(s, f)[at] == f(s.last())[at - head.len()]);
        s.len() - 1
    }
}

/// In an ordered run, the upper bound of a key among the records made of it
/// lies where the records made of the run up to its own upper bound end.
pub proof fn lemma_upper_bound_flat<T: SortKeyed, E: SortKeyed>(
    s: Seq<T>,
    f: spec_fn(T) -> Seq<E>,
    k: SortKey,
)
    requires
        is_sorted(s),
        keeps_key(f),
    ensures
        upper_bound(flat(s, f), k) == flat(s.subrange(0, upper_bound(s, k)), f).len(),
    decreases s.len(),
{
    if s.len() == 0 {
        assert(s.subrange(0, 0) =~= s);
    } else {
        let t = s.drop_last();
        let u = s.last();
        assert forall|i: int, j: int| 0 <= i < j < t.len() implies !key_lt(
            #[trigger] t[j].sort_key(),
            #[trigger] t[i].sort_key(),
        ) by {
            assert(t[i] == s[i] && t[j] == s[j]);
        }
        if key_lt(k, u.sort_key()) {
            lemma_upper_bound_flat(t, f, k);
            lemma_upper_bound(t, k);
            lemma_upper_bound_skips_greater(flat(t, f), f(u), k);
            assert(s.subrange(0, upper_bound(t, k)) =~= t.subrange(0, upper_bound(t, k)));
        } else {
            assert(s.subrange(0, s.len() as int) =~= s);
            let all = flat(s, f);
            if all.len() > 0 {
                let i = lemma_flat_key(s, f, all.len() - 1);
                if key_lt(k, all.last().sort_key()) {
                    if i < s.len() - 1 {
                        assert(!key_lt(s[s.len() - 1].sort_key(), s[i].sort_key()));
                    }
                    lemma_key_le_lt(k, s[i].sort_key(), u.sort_key());
                }
            }
        }
    }
}

/// Ordering the records made of a run is making the records of the ordered
/// run, where every record made has the key of the one it is made of.
pub proof fn lemma_sort_flat<T: SortKeyed, E: SortKeyed>(s: Seq<T>, f: spec_fn(T) -> Seq<E>)
    requires
        keeps_key(f),
    ensures
        stable_sort(flat(s, f)) == flat(stable_sort(s), f),
    decreases s.len(),
{
    if s.len() > 0 {
        let t = s.last();
        let sorted = stable_sort(s.drop_last());
        let k = t.sort_key();
        lemma_sort_flat(s.drop_last(), f);
        lemma_sort_concat(flat(s.drop_last(), f), f(t));
        lemma_insert_block(flat(sorted, f), f(t), k);
        lemma_stable_sort_sorted(s.drop_last());
        lemma_upper_bound_flat(sorted, f, k);
        lemma_upper_bound(sorted, k);
        let p = upper_bound(sorted, k);
        let before = sorted.subrange(0, p);
        let after = sorted.subrange(p, sorted.len() as int);
        assert(sorted =~= before + after);
        lemma_flat_concat(before, after, f);
        let j = flat(before, f).len() as int;
        assert(flat(sorted, f).subrange(0, j) =~= flat(before, f));
        assert(flat(sorted, f).subrange(j, flat(sorted, f).len() as int) =~= flat(after, f));
        lemma_insert_at_upper_bound(sorted, t);
        assert(sorted.insert(p, t) =~= (before + seq![t]) + after);
        lemma_flat_concat(before + seq![t], after, f);
        lemma_flat_concat(before, seq![t], f);
        assert(seq![t].drop_last() =~= Seq::<T>::empty());
        assert(flat(seq![t], f) =~= f(t)) by {
            assert(seq![t].last() == t);
            assert(flat(Seq::<T>::empty(), f) =~= Seq::<E>::empty());
        }
    }
}

/// Records of `s` that have the same key are the same record.
pub open spec fn key_identifies<T: SortKeyed>(s: Seq<T>) -> bool {
    forall|i: int, j: int|
        0 <= i < s.len() && 0 <= j < s.len() && (#[trigger] s[i]).sort_key() == (
        #[trigger] s[j]).sort_key() ==> s[i] == s[j]
}

/// Where the key identifies the record, it does so in any other order too.
pub proof fn lemma_key_identifies_permuted<T: SortKeyed>(a: Seq<T>, b: Seq<T>)
    requires
        a.to_multiset() == b.to_multiset(),
        key_identifies(a),
    ensures
        key_identifies(b),
{
    a.to_multiset_ensures();
    b.to_multiset_ensures();
    assert forall|i: int, j: int|
        0 <= i < b.len() && 0 <= j < b.len() && (#[trigger] b[i]).sort_key() == (
        #[trigger] b[j]).sort_key() implies b[i] == b[j] by {
        assert(b.contains(b[i]) && b.contains(b[j]));
        assert(b.to_multiset().count(b[i]) > 0 && b.to_multiset().count(b[j]) > 0);
        assert(a.to_multiset().count(b[i]) > 0 && a.to_multiset().count(b[j]) > 0);
        assert(a.contains(b[i]) && a.contains(b[j]));
        let x = choose|x: int| 0 <= x < a.len() && a[x] == b[i];
        let y = choose|y: int| 0 <= y < a.len() && a[y] == b[j];
        assert(a[x].sort_key() == a[y].sort_key());
    }
}

/// Two ordered runs of the same records are the same run, where the key
/// identifies the record.
pub proof fn lemma_sorted_unique<T: SortKeyed>(a: Seq<T>, b: Seq<T>)
    requires
        is_sorted(a),
        is_sorted(b),
        a.to_multiset() == b.to_multiset(),
        key_identifies(a),
    ensures
        a == b,
    decreases a.len(),
{
    a.to_multiset_ensures();
    b.to_multiset_ensures();
    if a.len() == 0 {
        assert(a =~= b);
    } else {
        let n = a.len() as int;
        let x = a.last();
        let y = b.last();
        assert(b.len() == n);
        assert(b.contains(b[n - 1]));
        assert(a.contains(a[n - 1]));
        assert(b.to_multiset().count(y) > 0 && a.to_multiset().count(x) > 0);
        assert(a.to_multiset().count(y) > 0 && b.to_multiset().count(x) > 0);
        assert(a.contains(y) && b.contains(x));
        let i = choose|i: int| 0 <= i < n && a[i] == y;
        let j = choose|j: int| 0 <= j < n && b[j] == x;
        if i < n - 1 {
            assert(!key_lt(a[n - 1].sort_key(), a[i].sort_key()));
            if j < n - 1 {
                assert(!key_lt(b[n - 1].sort_key(), b[j].sort_key()));
            }
            lemma_key_lt_connected(x.sort_key(), y.sort_key());
            assert(a[i].sort_key() == a[n - 1].sort_key());
        }
        assert(x == y);
        let a0 = a.drop_last();
        let b0 = b.drop_last();
        assert(a.remove(n - 1) =~= a0);
        assert(b.remove(n - 1) =~= b0);
        vstd::seq_lib::to_multiset_remove(a, n - 1);
        vstd::seq_lib::to_multiset_remove(b, n - 1);
        assert forall|p: int, q: int| 0 <= p < q < a0.len() implies !key_lt(
            #[trigger] a0[q].sort_key(),
            #[trigger] a0[p].sort_key(),
        ) by {
            assert(a0[p] == a[p] && a0[q] == a[q]);
        }
        assert forall|p: int, q: int| 0 <= p < q < b0.len() implies !key_lt(
            #[trigger] b0[q].sort_key(),
            #[trigger] b0[p].sort_key(),
        ) by {
            assert(b0[p] == b[p] && b0[q] == b[q]);
        }
        assert forall|p: int, q: int|
            0 <= p < a0.len() && 0 <= q < a0.len() && (#[trigger] a0[p]).sort_key() == (
            #[trigger] a0[q]).sort_key() implies a0[p] == a0[q] by {
            assert(a0[p] == a[p] && a0[q] == a[q]);
        }
        lemma_sorted_unique(a0, b0);
        assert(a =~= a0.push(x));
        assert(b =~= b0.push(y));
    }
}

/// Ordering does not depend on the order in which the records come, where
/// the key identifies the record.
pub proof fn lemma_sort_order_independent<T: SortKeyed>(a: Seq<T>, b: Seq<T>)
    requires
        a.to_multiset() == b.to_multiset(),
        key_identifies(a),
    ensures
        stable_sort(a) == stable_sort(b),
{
    lemma_stable_sort_permutes(a);
    lemma_stable_sort_permutes(b);
    lemma_stable_sort_sorted(a);
    lemma_stable_sort_sorted(b);
    lemma_key_identifies_permuted(a, stable_sort(a));
    lemma_sorted_unique(stable_sort(a), stable_sort(b));
}

} // verus!
