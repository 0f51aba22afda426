//! Ordering in place, by merging ordered halves.

use vstd::prelude::*;
use crate::order::{
    insert_sorted, is_sorted, key_lt, lemma_key_le_lt, lemma_key_lt_asymmetric,
    lemma_key_lt_connected, lemma_stable_sort_sorted, stable_sort, KeyOrder, SortKey, SortKeyed,
};
use crate::text::lemma_bytes_lt_irreflexive;

verus! {

/// The records of `s` that have the key `k`, in their order.
pub open spec fn with_key<T: SortKeyed>(s: Seq<T>, k: SortKey) -> Seq<T>
    decreases s.len(),
{
    if s.len() == 0 {
        Seq::empty()
    } else if s.last().sort_key() == k {
        with_key(s.drop_last(), k).push(s.last())
    } else {
        with_key(s.drop_last(), k)
    }
}

/// Two ordered runs as one: at every step the greater of the two last
/// records goes last, that of `b` where they are equal.
pub open spec fn merged<T: SortKeyed>(a: Seq<T>, b: Seq<T>) -> Seq<T>
    decreases a.len() + b.len(),
{
    if a.len() == 0 {
        b
    } else if b.len() == 0 {
        a
    } else if key_lt(b.last().sort_key(), a.last().sort_key()) {
        merged(a.drop_last(), b).push(a.last())
    } else {
        merged(a, b.drop_last()).push(b.last())
    }
}

proof fn lemma_with_key_concat<T: SortKeyed>(a: Seq<T>, b: Seq<T>, k: SortKey)
    ensures
        with_key(a + b, k) == with_key(a, k) + with_key(b, k),
    decreases b.len(),
{
    if b.len() == 0 {
        assert(a + b =~= a);
        assert(with_key(a, k) + with_key(b, k) =~= with_key(a, k));
    } else {
        assert((a + b).last() == b.last());
        assert((a + b).drop_last() =~= a + b.drop_last());
        lemma_with_key_concat(a, b.drop_last(), k);
        assert(with_key(a + b, k) =~= with_key(a, k) + with_key(b, k));
    }
}

proof fn lemma_with_key_none<T: SortKeyed>(s: Seq<T>, k: SortKey)
    requires
        forall|i: int| 0 <= i < s.len() ==> (#[trigger] s[i]).sort_key() != k,
    ensures
        with_key(s, k) == Seq::<T>::empty(),
    decreases s.len(),
{
    if s.len() > 0 {
        let t = s.drop_last();
        assert forall|i: int| 0 <= i < t.len() implies (#[trigger] t[i]).sort_key() != k by {
            assert(t[i] == s[i]);
        }
        lemma_with_key_none(t, k);
        assert(s.last() == s[s.len() - 1]);
    }
}

/// Where `s` holds a record with the key `k`, `with_key(s, k)` is not empty.
proof fn lemma_with_key_some<T: SortKeyed>(s: Seq<T>, k: SortKey, i: int)
    requires
        0 <= i < s.len(),
        s[i].sort_key() == k,
    ensures
        with_key(s, k).len() > 0,
    decreases s.len(),
{
    if i < s.len() - 1 {
        lemma_with_key_some(s.drop_last(), k, i);
    }
}

/// Where `with_key(s, k)` is not empty, `s` holds a record with the key `k`.
proof fn lemma_with_key_witness<T: SortKeyed>(s: Seq<T>, k: SortKey) -> (i: int)
    requires
        with_key(s, k).len() > 0,
    ensures
        0 <= i < s.len(),
        s[i].sort_key() == k,
    decreases s.len(),
{
    if s.last().sort_key() == k {
        s.len() - 1
    } else {
        lemma_with_key_witness(s.drop_last(), k)
    }
}

proof fn lemma_with_key_insert<T: SortKeyed>(s: Seq<T>, x: T, k: SortKey)
    ensures
        with_key(insert_sorted(s, x), k) == if x.sort_key() == k {
            with_key(s, k).push(x)
        } else {
            with_key(s, k)
        },
    decreases s.len(),
{
    if s.len() == 0 {
        assert(seq![x].drop_last() =~= s);
        assert(seq![x].last() == x);
    } else if key_lt(x.sort_key(), s.last().sort_key()) {
        lemma_with_key_insert(s.drop_last(), x, k);
        let r = insert_sorted(s.drop_last(), x).push(s.last());
        assert(r.drop_last() =~= insert_sorted(s.drop_last(), x));
        assert(r.last() == s.last());
        if x.sort_key() == k {
            lemma_bytes_lt_irreflexive(k.hash);
            assert(s.last().sort_key() != k);
        }
    } else {
        assert(s.push(x).drop_last() =~= s);
        assert(s.push(x).last() == x);
    }
}

/// Ordering keeps the records of every key in their order.
pub proof fn lemma_stable_sort_is_stable<T: SortKeyed>(s: Seq<T>, k: SortKey)
    ensures
        with_key(stable_sort(s), k) == with_key(s, k),
    decreases s.len(),
{
    if s.len() > 0 {
        lemma_stable_sort_is_stable(s.drop_last(), k);
        lemma_with_key_insert(stable_sort(s.drop_last()), s.last(), k);
    }
}

/// Every record of a merge is a record of one of the two runs.
proof fn lemma_merged_from<T: SortKeyed>(a: Seq<T>, b: Seq<T>, i: int)
    requires
        0 <= i < merged(a, b).len(),
    ensures
        a.contains(merged(a, b)[i]) || b.contains(merged(a, b)[i]),
    decreases a.len() + b.len(),
{
    if a.len() == 0 {
        assert(b[i] == merged(a, b)[i]);
    } else if b.len() == 0 {
        assert(a[i] == merged(a, b)[i]);
    } else if key_lt(b.last().sort_key(), a.last().sort_key()) {
        let m = merged(a.drop_last(), b);
        if i < m.len() {
            lemma_merged_from(a.drop_last(), b, i);
            if a.drop_last().contains(m[i]) {
                let j = choose|j: int| 0 <= j < a.drop_last().len() && a.drop_last()[j] == m[i];
                assert(a[j] == m[i]);
            }
        } else {
            assert(a[a.len() - 1] == merged(a, b)[i]);
        }
    } else {
        let m = merged(a, b.drop_last());
        if i < m.len() {
            lemma_merged_from(a, b.drop_last(), i);
            if b.drop_last().contains(m[i]) {
                let j = choose|j: int| 0 <= j < b.drop_last().len() && b.drop_last()[j] == m[i];
                assert(b[j] == m[i]);
            }
        } else {
            assert(b[b.len() - 1] == merged(a, b)[i]);
        }
    }
}

proof fn lemma_sorted_drop_last<T: SortKeyed>(s: Seq<T>)
    requires
        is_sorted(s),
        s.len() > 0,
    ensures
        is_sorted(s.drop_last()),
        forall|i: int| 0 <= i < s.len() ==> !key_lt(s.last().sort_key(), #[trigger] s[i].sort_key()),
{
    let t = s.drop_last();
    assert forall|i: int, j: int| 0 <= i < j < t.len() implies !key_lt(
        #[trigger] t[j].sort_key(),
        #[trigger] t[i].sort_key(),
    ) by {
        assert(t[i] == s[i] && t[j] == s[j]);
    }
    assert forall|i: int| 0 <= i < s.len() implies !key_lt(
        s.last().sort_key(),
        #[trigger] s[i].sort_key(),
    ) by {
        if i < s.len() - 1 {
            assert(!key_lt(s[s.len() - 1].sort_key(), s[i].sort_key()));
        } else {
            lemma_bytes_lt_irreflexive(s[i].sort_key().hash);
        }
    }
}

/// The merge of two ordered runs is ordered.
pub proof fn lemma_merged_sorted<T: SortKeyed>(a: Seq<T>, b: Seq<T>)
    requires
        is_sorted(a),
        is_sorted(b),
    ensures
        is_sorted(merged(a, b)),
    decreases a.len() + b.len(),
{
    if a.len() > 0 && b.len() > 0 {
        lemma_sorted_drop_last(a);
        lemma_sorted_drop_last(b);
        let top = if key_lt(b.last().sort_key(), a.last().sort_key()) {
            a.last()
        } else {
            b.last()
        };
        let m = if key_lt(b.last().sort_key(), a.last().sort_key()) {
            lemma_merged_sorted(a.drop_last(), b);
            merged(a.drop_last(), b)
        } else {
            lemma_merged_sorted(a, b.drop_last());
            merged(a, b.drop_last())
        };
        let r = m.push(top);
        assert forall|i: int| 0 <= i < m.len() implies !key_lt(
            top.sort_key(),
            #[trigger] m[i].sort_key(),
        ) by {
            if key_lt(b.last().sort_key(), a.last().sort_key()) {
                lemma_merged_from(a.drop_last(), b, i);
                if a.drop_last().contains(m[i]) {
                    let j = choose|j: int| 0 <= j < a.drop_last().len() && a.drop_last()[j] == m[i];
                    assert(a[j] == m[i]);
                } else {
                    let j = choose|j: int| 0 <= j < b.len() && b[j] == m[i];
                    if key_lt(top.sort_key(), m[i].sort_key()) {
                        // a.last < b[j] <= b.last, yet b.last is before a.last
                        assert(!key_lt(b.last().sort_key(), b[j].sort_key()));
                        lemma_key_le_lt(a.last().sort_key(), b[j].sort_key(), b.last().sort_key());
                        lemma_key_lt_asymmetric(a.last().sort_key(), b.last().sort_key());
                    }
                }
            } else {
                lemma_merged_from(a, b.drop_last(), i);
                if b.drop_last().contains(m[i]) {
                    let j = choose|j: int| 0 <= j < b.drop_last().len() && b.drop_last()[j] == m[i];
                    assert(b[j] == m[i]);
                } else {
                    let j = choose|j: int| 0 <= j < a.len() && a[j] == m[i];
                    if key_lt(top.sort_key(), m[i].sort_key()) {
                        // b.last < a[j] <= a.last, yet a.last is not after b.last
                        if j < a.len() - 1 {
                            assert(!key_lt(a[a.len() - 1].sort_key(), a[j].sort_key()));
                            lemma_key_le_lt(
                                b.last().sort_key(),
                                a[j].sort_key(),
                                a.last().sort_key(),
                            );
                        }
                    }
                }
            }
        }
        assert forall|i: int, j: int| 0 <= i < j < r.len() implies !key_lt(
            #[trigger] r[j].sort_key(),
            #[trigger] r[i].sort_key(),
        ) by {
            if j < m.len() {
                assert(r[i] == m[i] && r[j] == m[j]);
            } else {
                assert(r[i] == m[i]);
            }
        }
    }
}

/// A merge keeps the records of every key in their order, those of the
/// first run before those of the second.
pub proof fn lemma_merged_is_stable<T: SortKeyed>(a: Seq<T>, b: Seq<T>, k: SortKey)
    requires
        is_sorted(b),
    ensures
        with_key(merged(a, b), k) == with_key(a, k) + with_key(b, k),
    decreases a.len() + b.len(),
{
    if a.len() == 0 {
        assert(with_key(a, k) + with_key(b, k) =~= with_key(b, k));
    } else if b.len() == 0 {
        assert(with_key(a, k) + with_key(b, k) =~= with_key(a, k));
    } else if key_lt(b.last().sort_key(), a.last().sort_key()) {
        lemma_merged_is_stable(a.drop_last(), b, k);
        let m = merged(a.drop_last(), b);
        assert(m.push(a.last()).drop_last() =~= m);
        assert(m.push(a.last()).last() == a.last());
        if a.last().sort_key() == k {
            lemma_sorted_drop_last(b);
            assert forall|i: int| 0 <= i < b.len() implies (#[trigger] b[i]).sort_key() != k by {
                if b[i].sort_key() == k {
                    // then a.last is not after b.last, which it is
                    assert(!key_lt(b.last().sort_key(), b[i].sort_key()));
                }
            }
            lemma_with_key_none(b, k);
        }
        assert(with_key(merged(a, b), k) =~= with_key(a, k) + with_key(b, k));
    } else {
        lemma_sorted_drop_last(b);
        lemma_merged_is_stable(a, b.drop_last(), k);
        let m = merged(a, b.drop_last());
        assert(m.push(b.last()).drop_last() =~= m);
        assert(m.push(b.last()).last() == b.last());
        assert(with_key(merged(a, b), k) =~= with_key(a, k) + with_key(b, k));
    }
}

/// Two ordered runs that hold the same records under every key, in the
/// same order, are the same run.
pub proof fn lemma_sorted_groups_unique<T: SortKeyed>(a: Seq<T>, b: Seq<T>)
    requires
        is_sorted(a),
        is_sorted(b),
        forall|k: SortKey| with_key(a, k) == with_key(b, k),
    ensures
        a == b,
    decreases a.len() + b.len(),
{
    if a.len() == 0 && b.len() == 0 {
        assert(a =~= b);
    } else if a.len() == 0 {
        lemma_with_key_some(b, b.last().sort_key(), b.len() - 1);
        assert(with_key(a, b.last().sort_key()) == with_key(b, b.last().sort_key()));
    } else if b.len() == 0 {
        lemma_with_key_some(a, a.last().sort_key(), a.len() - 1);
        assert(with_key(a, a.last().sort_key()) == with_key(b, a.last().sort_key()));
    } else {
        let x = a.last();
        let y = b.last();
        let kx = x.sort_key();
        let ky = y.sort_key();
        lemma_sorted_drop_last(a);
        lemma_sorted_drop_last(b);
        assert(with_key(a, kx) == with_key(b, kx));
        assert(with_key(a, ky) == with_key(b, ky));
        let i = lemma_with_key_witness(b, kx);
        let j = lemma_with_key_witness(a, ky);
        assert(!key_lt(ky, b[i].sort_key()));
        assert(!key_lt(kx, a[j].sort_key()));
        lemma_key_lt_connected(kx, ky);
        assert(with_key(a, kx).last() == x);
        assert(with_key(b, kx).last() == y);
        let a0 = a.drop_last();
        let b0 = b.drop_last();
        assert forall|k: SortKey| with_key(a0, k) == with_key(b0, k) by {
            assert(with_key(a, k) == with_key(b, k));
            if k == kx {
                assert(with_key(a0, k) =~= with_key(a, k).drop_last());
                assert(with_key(b0, k) =~= with_key(b, k).drop_last());
            }
        }
        lemma_sorted_groups_unique(a0, b0);
        assert(a =~= a0.push(x));
        assert(b =~= b0.push(y));
    }
}

/// Merging two ordered halves is ordering the whole.
pub proof fn lemma_merge_of_sorted_halves<T: SortKeyed>(a: Seq<T>, b: Seq<T>)
    ensures
        merged(stable_sort(a), stable_sort(b)) == stable_sort(a + b),
{
    lemma_stable_sort_sorted(a);
    lemma_stable_sort_sorted(b);
    lemma_stable_sort_sorted(a + b);
    lemma_merged_sorted(stable_sort(a), stable_sort(b));
    assert forall|k: SortKey|
        with_key(merged(stable_sort(a), stable_sort(b)), k) == with_key(stable_sort(a + b), k) by {
        lemma_merged_is_stable(stable_sort(a), stable_sort(b), k);
        lemma_stable_sort_is_stable(a, k);
        lemma_stable_sort_is_stable(b, k);
        lemma_stable_sort_is_stable(a + b, k);
        lemma_with_key_concat(a, b, k);
    }
    lemma_sorted_groups_unique(merged(stable_sort(a), stable_sort(b)), stable_sort(a + b));
}

/// Merges two ordered runs into one; of records with equal keys those of `a`
/// come first.
fn merge<T: KeyOrder>(a: Vec<T>, b: Vec<T>) -> (r: Vec<T>)
    ensures
        r@ == merged(a@, b@),
{
    let ghost whole = merged(a@, b@);
    let mut a = a;
    let mut b = b;
    // the records that go last, the last of them first
    let mut back: Vec<T> = Vec::new();
    assert(whole =~= merged(a@, b@) + back@.reverse());
    while a.len() > 0 && b.len() > 0
        invariant
            whole == merged(a@, b@) + back@.reverse(),
        decreases a.len() + b.len(),
    {
        let ghost rest = back@;
        let from_a = b[b.len() - 1].key_before(&a[a.len() - 1]);
        let ghost before_a = a@;
        let ghost before_b = b@;
        let top = if from_a {
            a.pop()
        } else {
            b.pop()
        };
        match top {
            Some(x) => {
                back.push(x);
                proof {
                    assert(before_a.subrange(0, before_a.len() - 1) =~= before_a.drop_last());
                    assert(before_b.subrange(0, before_b.len() - 1) =~= before_b.drop_last());
                    assert(back@.reverse() =~= seq![x] + rest.reverse());
                    assert(merged(before_a, before_b) == merged(a@, b@).push(x));
                    assert(whole =~= merged(a@, b@) + back@.reverse());
                }
            },
            None => {},
        }
    }
    let mut r = if a.len() > 0 {
        a
    } else {
        b
    };
    while back.len() > 0
        invariant
            whole == r@ + back@.reverse(),
        decreases back.len(),
    {
        let ghost rest = back@;
        let ghost head = r@;
        match back.pop() {
            Some(x) => {
                r.push(x);
                proof {
                    assert(rest.reverse() =~= seq![x] + back@.reverse());
                    assert(whole =~= r@ + back@.reverse());
                }
            },
            None => {},
        }
    }
    assert(back@.reverse() =~= Seq::<T>::empty());
    assert(whole =~= r@);
    r
}

/// Orders a run by key; records with equal keys keep their order.
fn merge_sort<T: KeyOrder>(v: Vec<T>) -> (r: Vec<T>)
    ensures
        r@ == stable_sort(v@),
    decreases v.len(),
{
    let mut v = v;
    let n = v.len();
    if n <= 1 {
        proof {
            reveal_with_fuel(stable_sort, 2);
            if n == 1 {
                assert(v@.drop_last() =~= Seq::<T>::empty());
                assert(stable_sort(v@) =~= v@);
            }
        }
        return v;
    }
    let ghost whole = v@;
    let tail = v.split_off(n / 2);
    proof {
        assert(whole =~= v@ + tail@);
        lemma_merge_of_sorted_halves(v@, tail@);
    }
    let left = merge_sort(v);
    let right = merge_sort(tail);
    merge(left, right)
}

/// Orders `v` by key, in place; records with equal keys keep their order.
pub fn sort_stable<T: KeyOrder>(v: &mut Vec<T>)
    ensures
        final(v)@ == stable_sort(old(v)@),
{
    let mut taken: Vec<T> = Vec::new();
    core::mem::swap(v, &mut taken);
    let mut sorted = merge_sort(taken);
    core::mem::swap(v, &mut sorted);
}

} // verus!
