//! The ordering contract: records are ordered by slot, then by transaction
//! hash, and records with the same key keep the order in which they came.

use vstd::prelude::*;
use crate::text::{
    bytes_lt, lemma_bytes_lt_asymmetric, lemma_bytes_lt_connected, lemma_bytes_lt_transitive,
};

pub mod independence;
pub mod merge;

pub use independence::{
    flat, keeps_key, key_identifies, lemma_sort_flat, lemma_sort_order_independent,
};
pub use merge::sort_stable;

verus! {

/// What records are ordered by: a slot number, then the bytes of a hash.
pub struct SortKey {
    pub slot: u64,
    pub hash: Seq<u8>,
}

/// Strictly before, in the order of `(slot, hash)`.
pub open spec fn key_lt(a: SortKey, b: SortKey) -> bool {
    a.slot < b.slot || (a.slot == b.slot && bytes_lt(a.hash, b.hash))
}

/// A record that has an ordering key.
pub trait SortKeyed {
    spec fn sort_key(&self) -> SortKey;
}

/// A record whose ordering key can be compared at run time.
pub trait KeyOrder: SortKeyed + Sized {
    /// Whether `self` sorts strictly before `other`.
    fn key_before(&self, other: &Self) -> (r: bool)
        ensures
            r == key_lt(self.sort_key(), other.sort_key()),
    ;
}

/// `s` with `x` put behind the last record that does not sort after it.
pub open spec fn insert_sorted<T: SortKeyed>(s: Seq<T>, x: T) -> Seq<T>
    decreases s.len(),
{
    if s.len() == 0 {
        seq![x]
    } else if key_lt(x.sort_key(), s.last().sort_key()) {
        insert_sorted(s.drop_last(), x).push(s.last())
    } else {
        s.push(x)
    }
}

/// The records of `s` ordered by key, those with equal keys in their first order.
pub open spec fn stable_sort<T: SortKeyed>(s: Seq<T>) -> Seq<T>
    decreases s.len(),
{
    if s.len() == 0 {
        s
    } else {
        insert_sorted(stable_sort(s.drop_last()), s.last())
    }
}

/// No record sorts strictly before an earlier one.
pub open spec fn is_sorted<T: SortKeyed>(s: Seq<T>) -> bool {
    forall|i: int, j: int|
        0 <= i < j < s.len() ==> !key_lt(#[trigger] s[j].sort_key(), #[trigger] s[i].sort_key())
}

/// `a < b < c` gives `a < c`.
pub proof fn lemma_key_lt_transitive(a: SortKey, b: SortKey, c: SortKey)
    requires
        key_lt(a, b),
        key_lt(b, c),
    ensures
        key_lt(a, c),
{
    if a.slot == b.slot && b.slot == c.slot {
        lemma_bytes_lt_transitive(a.hash, b.hash, c.hash);
    }
}

/// Of two keys, at most one is before the other.
pub proof fn lemma_key_lt_asymmetric(a: SortKey, b: SortKey)
    requires
        key_lt(a, b),
    ensures
        !key_lt(b, a),
{
    if a.slot == b.slot {
        lemma_bytes_lt_asymmetric(a.hash, b.hash);
    }
}

/// Keys neither of which is before the other are the same key.
pub proof fn lemma_key_lt_connected(a: SortKey, b: SortKey)
    requires
        !key_lt(a, b),
        !key_lt(b, a),
    ensures
        a == b,
{
    lemma_bytes_lt_connected(a.hash, b.hash);
}

/// `a <= b < c` gives `a < c`, and `a < b <= c` too.
pub proof fn lemma_key_le_lt(a: SortKey, b: SortKey, c: SortKey)
    requires
        (!key_lt(b, a) && key_lt(b, c)) || (key_lt(a, b) && !key_lt(c, b)),
    ensures
        key_lt(a, c),
{
    if !key_lt(b, a) && key_lt(b, c) {
        if key_lt(a, b) {
            lemma_key_lt_transitive(a, b, c);
        } else {
            lemma_key_lt_connected(a, b);
        }
    } else {
        if key_lt(b, c) {
            lemma_key_lt_transitive(a, b, c);
        } else {
            lemma_key_lt_connected(b, c);
        }
    }
}

/// Where `insert_sorted` puts a record: at the one place `j` such that all
/// records from `j` on sort strictly after it and the record before `j` does not.
pub proof fn lemma_insert_position<T: SortKeyed>(s: Seq<T>, x: T, j: int)
    requires
        0 <= j <= s.len(),
        forall|k: int| j <= k < s.len() ==> key_lt(x.sort_key(), #[trigger] s[k].sort_key()),
        j > 0 ==> !key_lt(x.sort_key(), s[j - 1].sort_key()),
    ensures
        insert_sorted(s, x) == s.insert(j, x),
    decreases s.len(),
{
    if s.len() == 0 {
        assert(s.insert(j, x) =~= seq![x]);
    } else if key_lt(x.sort_key(), s.last().sort_key()) {
        assert(j < s.len());
        let t = s.drop_last();
        assert forall|k: int| j <= k < t.len() implies key_lt(
            x.sort_key(),
            #[trigger] t[k].sort_key(),
        ) by {
            assert(t[k] == s[k]);
        }
        lemma_insert_position(t, x, j);
        assert(t.insert(j, x).push(s.last()) =~= s.insert(j, x));
    } else {
        assert(j == s.len());
        assert(s.push(x) =~= s.insert(j, x));
    }
}

/// `insert_sorted` puts the record in at one place and moves nothing else:
/// the place `j` behind which every record sorts strictly after it and before
/// which the nearest record does not.
pub proof fn lemma_insert_is_insertion<T: SortKeyed>(s: Seq<T>, x: T) -> (j: int)
    ensures
        0 <= j <= s.len(),
        insert_sorted(s, x) == s.insert(j, x),
        forall|k: int| j <= k < s.len() ==> key_lt(x.sort_key(), #[trigger] s[k].sort_key()),
        j > 0 ==> !key_lt(x.sort_key(), s[j - 1].sort_key()),
    decreases s.len(),
{
    if s.len() == 0 {
        assert(s.insert(0, x) =~= seq![x]);
        0
    } else if key_lt(x.sort_key(), s.last().sort_key()) {
        let t = s.drop_last();
        let j = lemma_insert_is_insertion(t, x);
        assert(t.insert(j, x).push(s.last()) =~= s.insert(j, x));
        assert forall|k: int| j <= k < s.len() implies key_lt(
            x.sort_key(),
            #[trigger] s[k].sort_key(),
        ) by {
            if k < t.len() {
                assert(t[k] == s[k]);
            }
        }
        j
    } else {
        assert(s.push(x) =~= s.insert(s.len() as int, x));
        s.len() as int
    }
}

/// Putting a record into an ordered run leaves it ordered.
pub proof fn lemma_insert_keeps_sorted<T: SortKeyed>(s: Seq<T>, x: T)
    requires
        is_sorted(s),
    ensures
        is_sorted(insert_sorted(s, x)),
{
    let j = lemma_insert_is_insertion(s, x);
    let r = s.insert(j, x);
    assert forall|a: int, b: int| 0 <= a < b < r.len() implies !key_lt(
        #[trigger] r[b].sort_key(),
        #[trigger] r[a].sort_key(),
    ) by {
        if b < j {
            assert(r[a] == s[a] && r[b] == s[b]);
        } else if b == j {
            assert(r[a] == s[a]);
            if key_lt(x.sort_key(), s[a].sort_key()) {
                if a < j - 1 {
                    assert(!key_lt(s[j - 1].sort_key(), s[a].sort_key()));
                    lemma_key_le_lt(x.sort_key(), s[a].sort_key(), s[j - 1].sort_key());
                }
            }
        } else if a == j {
            assert(r[b] == s[b - 1]);
            lemma_key_lt_asymmetric(x.sort_key(), s[b - 1].sort_key());
        } else if a < j {
            assert(r[a] == s[a] && r[b] == s[b - 1]);
        } else {
            assert(r[a] == s[a - 1] && r[b] == s[b - 1]);
        }
    }
}

/// What `stable_sort` returns is ordered.
pub proof fn lemma_stable_sort_sorted<T: SortKeyed>(s: Seq<T>)
    ensures
        is_sorted(stable_sort(s)),
    decreases s.len(),
{
    if s.len() > 0 {
        lemma_stable_sort_sorted(s.drop_last());
        lemma_insert_keeps_sorted(stable_sort(s.drop_last()), s.last());
    }
}

/// Ordering an ordered run changes nothing.
pub proof fn lemma_sort_of_sorted<T: SortKeyed>(s: Seq<T>)
    requires
        is_sorted(s),
    ensures
        stable_sort(s) == s,
    decreases s.len(),
{
    if s.len() > 0 {
        let t = s.drop_last();
        assert forall|i: int, j: int| 0 <= i < j < t.len() implies !key_lt(
            #[trigger] t[j].sort_key(),
            #[trigger] t[i].sort_key(),
        ) by {
            assert(t[i] == s[i] && t[j] == s[j]);
        }
        lemma_sort_of_sorted(t);
        if t.len() > 0 {
            assert(t.last() == s[s.len() - 2]);
            assert(!key_lt(s[s.len() - 1].sort_key(), s[s.len() - 2].sort_key()));
        }
        assert(t.push(s.last()) =~= s);
    }
}

/// Ordering twice is ordering once.
pub proof fn lemma_stable_sort_idempotent<T: SortKeyed>(s: Seq<T>)
    ensures
        stable_sort(stable_sort(s)) == stable_sort(s),
{
    lemma_stable_sort_sorted(s);
    lemma_sort_of_sorted(stable_sort(s));
}

/// Ordering commutes with a map that keeps every key.
pub proof fn lemma_insert_commutes_with_map<A: SortKeyed, B: SortKeyed>(
    s: Seq<A>,
    x: A,
    f: spec_fn(A) -> B,
)
    requires
        forall|a: A| #[trigger] f(a).sort_key() == a.sort_key(),
    ensures
        insert_sorted(s, x).map_values(f) == insert_sorted(s.map_values(f), f(x)),
    decreases s.len(),
{
    let t = s.map_values(f);
    if s.len() == 0 {
        assert(seq![x].map_values(f) =~= seq![f(x)]);
    } else if key_lt(x.sort_key(), s.last().sort_key()) {
        lemma_insert_commutes_with_map(s.drop_last(), x, f);
        assert(t.drop_last() =~= s.drop_last().map_values(f));
        assert(insert_sorted(s.drop_last(), x).push(s.last()).map_values(f) =~= insert_sorted(
            s.drop_last(),
            x,
        ).map_values(f).push(f(s.last())));
    } else {
        assert(s.push(x).map_values(f) =~= t.push(f(x)));
    }
}

/// Ordering commutes with a map that keeps every key.
pub proof fn lemma_sort_commutes_with_map<A: SortKeyed, B: SortKeyed>(s: Seq<A>, f: spec_fn(A) -> B)
    requires
        forall|a: A| #[trigger] f(a).sort_key() == a.sort_key(),
    ensures
        stable_sort(s).map_values(f) == stable_sort(s.map_values(f)),
    decreases s.len(),
{
    if s.len() == 0 {
        assert(s.map_values(f) =~= Seq::<B>::empty());
        assert(stable_sort(s).map_values(f) =~= stable_sort(s.map_values(f)));
    } else {
        lemma_sort_commutes_with_map(s.drop_last(), f);
        lemma_insert_commutes_with_map(stable_sort(s.drop_last()), s.last(), f);
        assert(s.map_values(f).drop_last() =~= s.drop_last().map_values(f));
    }
}

/// What `stable_sort` returns holds the records that it was given, each as
/// often as it was given.
pub proof fn lemma_stable_sort_permutes<T: SortKeyed>(s: Seq<T>)
    ensures
        stable_sort(s).to_multiset() == s.to_multiset(),
    decreases s.len(),
{
    broadcast use {vstd::seq_lib::to_multiset_build, vstd::seq_lib::to_multiset_insert};

    if s.len() > 0 {
        lemma_stable_sort_permutes(s.drop_last());
        let sorted = stable_sort(s.drop_last());
        let j = lemma_insert_is_insertion(sorted, s.last());
        assert(s.drop_last().push(s.last()) =~= s);
        assert(sorted.insert(j, s.last()).to_multiset() == sorted.to_multiset().insert(s.last()));
        assert(s.drop_last().push(s.last()).to_multiset() == s.drop_last().to_multiset().insert(
            s.last(),
        ));
    }
}

/// What holds of every record of a run holds of every record of the ordered run.
pub proof fn lemma_sort_keeps_all<T: SortKeyed>(s: Seq<T>, holds: spec_fn(T) -> bool)
    requires
        forall|i: int| 0 <= i < s.len() ==> holds(#[trigger] s[i]),
    ensures
        forall|i: int| 0 <= i < stable_sort(s).len() ==> holds(#[trigger] stable_sort(s)[i]),
    decreases s.len(),
{
    if s.len() > 0 {
        let t = s.drop_last();
        assert forall|i: int| 0 <= i < t.len() implies holds(#[trigger] t[i]) by {
            assert(t[i] == s[i]);
        }
        lemma_sort_keeps_all(t, holds);
        let sorted = stable_sort(t);
        let j = lemma_insert_is_insertion(sorted, s.last());
        let r = sorted.insert(j, s.last());
        assert forall|i: int| 0 <= i < r.len() implies holds(#[trigger] r[i]) by {
            if i < j {
                assert(r[i] == sorted[i]);
            } else if i == j {
                assert(r[i] == s[s.len() - 1]);
            } else {
                assert(r[i] == sorted[i - 1]);
            }
        }
    }
}

} // verus!
