//! Stable sorting of records by their stored index.
use vstd::prelude::*;

verus! {

/// A record that carries the index under which the file stores it.
pub trait Indexed: DeepView {
    spec fn key_of(v: Self::V) -> u32;

    fn key(&self) -> (k: u32)
        ensures
            k == Self::key_of(self.deep_view()),
    ;
}

/// The first position at or after `j` whose record has an index of at
/// least `k`.
pub open spec fn slot_from<T: Indexed>(k: u32, sorted: Seq<T::V>, j: int) -> int
    decreases sorted.len() - j,
{
    if 0 <= j < sorted.len() && T::key_of(sorted[j]) < k {
        slot_from::<T>(k, sorted, j + 1)
    } else {
        j
    }
}

/// The records of `s` in ascending order of index; records with the same
/// index keep the order that they have in `s`.
pub open spec fn sort_by_index<T: Indexed>(s: Seq<T::V>) -> Seq<T::V>
    decreases s.len(),
{
    if s.len() == 0 {
        s
    } else {
        let rest = sort_by_index::<T>(s.drop_first());
        rest.insert(slot_from::<T>(T::key_of(s.first()), rest, 0), s.first())
    }
}

/// No record has a smaller index than one before it.
pub open spec fn ascending<T: Indexed>(s: Seq<T::V>) -> bool {
    forall|i: int, j: int| 0 <= i < j < s.len() ==> T::key_of(s[i]) <= T::key_of(s[j])
}

/// No two records have the same index.
pub open spec fn distinct_indices<T: Indexed>(s: Seq<T::V>) -> bool {
    forall|i: int, j: int| 0 <= i < j < s.len() ==> T::key_of(s[i]) != T::key_of(s[j])
}

/// Every index is below the number of records.
pub open spec fn indices_in_range<T: Indexed>(s: Seq<T::V>, n: int) -> bool {
    forall|i: int| 0 <= i < s.len() ==> T::key_of(#[trigger] s[i]) < n
}

/// Every record of `a` is a record of `b`.
pub open spec fn drawn_from<V>(a: Seq<V>, b: Seq<V>) -> bool {
    forall|i: int| 0 <= i < a.len() ==> b.contains(#[trigger] a[i])
}

pub proof fn lemma_slot<T: Indexed>(k: u32, sorted: Seq<T::V>, j: int)
    requires
        0 <= j <= sorted.len(),
    ensures
        j <= slot_from::<T>(k, sorted, j) <= sorted.len(),
        forall|i: int|
            j <= i < slot_from::<T>(k, sorted, j) ==> T::key_of(#[trigger] sorted[i]) < k,
        slot_from::<T>(k, sorted, j) < sorted.len() ==> k <= T::key_of(
            sorted[slot_from::<T>(k, sorted, j)],
        ),
    decreases sorted.len() - j,
{
    if j < sorted.len() && T::key_of(sorted[j]) < k {
        lemma_slot::<T>(k, sorted, j + 1);
    }
}

/// Sorting keeps every record, yields ascending indices, and keeps the
/// indices distinct where they were.
pub proof fn lemma_sort_by_index<T: Indexed>(s: Seq<T::V>)
    ensures
        sort_by_index::<T>(s).len() == s.len(),
        ascending::<T>(sort_by_index::<T>(s)),
        drawn_from(sort_by_index::<T>(s), s),
        sort_by_index::<T>(s).to_multiset() == s.to_multiset(),
        distinct_indices::<T>(s) ==> distinct_indices::<T>(sort_by_index::<T>(s)),
    decreases s.len(),
{
    broadcast use vstd::seq_lib::to_multiset_insert;

    if s.len() == 0 {
    } else {
        let tail = s.drop_first();
        let v = s.first();
        let k = T::key_of(v);
        lemma_sort_by_index::<T>(tail);
        let rest = sort_by_index::<T>(tail);
        lemma_slot::<T>(k, rest, 0);
        let p = slot_from::<T>(k, rest, 0);
        let out = rest.insert(p, v);
        assert(out == sort_by_index::<T>(s));
        assert(ascending::<T>(out)) by {
            assert forall|i: int, j: int| 0 <= i < j < out.len() implies T::key_of(out[i])
                <= T::key_of(out[j]) by {
                if j == p {
                    assert(out[i] == rest[i]);
                } else if i == p {
                    assert(out[j] == rest[j - 1]);
                    if p < j - 1 {
                        assert(T::key_of(rest[p]) <= T::key_of(rest[j - 1]));
                    }
                } else {
                    let a = if i < p { i } else { i - 1 };
                    let b = if j < p { j } else { j - 1 };
                    assert(out[i] == rest[a] && out[j] == rest[b]);
                }
            }
        }
        assert(drawn_from(out, s)) by {
            assert forall|i: int| 0 <= i < out.len() implies s.contains(#[trigger] out[i]) by {
                if i == p {
                    assert(s[0] == v);
                } else {
                    let a = if i < p { i } else { i - 1 };
                    assert(out[i] == rest[a]);
                    assert(tail.contains(rest[a]));
                    let w = choose|w: int| 0 <= w < tail.len() && tail[w] == rest[a];
                    assert(s[w + 1] == rest[a]);
                }
            }
        }
        assert(out.to_multiset() == s.to_multiset()) by {
            assert(s =~= tail.insert(0, v));
        }
        if distinct_indices::<T>(s) {
            assert(distinct_indices::<T>(tail)) by {
                assert forall|i: int, j: int| 0 <= i < j < tail.len() implies T::key_of(tail[i])
                    != T::key_of(tail[j]) by {
                    assert(tail[i] == s[i + 1] && tail[j] == s[j + 1]);
                }
            }
            assert forall|i: int, j: int| 0 <= i < j < out.len() implies T::key_of(out[i])
                != T::key_of(out[j]) by {
                let a = if i < p { i } else { i - 1 };
                let b = if j < p { j } else { j - 1 };
                if i == p || j == p {
                    let other = if i == p { b } else { a };
                    assert(out[if i == p { j } else { i }] == rest[other]);
                    assert(tail.contains(rest[other]));
                    let w = choose|w: int| 0 <= w < tail.len() && tail[w] == rest[other];
                    assert(s[w + 1] == rest[other]);
                    assert(T::key_of(s[0]) != T::key_of(s[w + 1]));
                } else {
                    assert(out[i] == rest[a] && out[j] == rest[b]);
                }
            }
        }
    }
}

proof fn lemma_at_least_position<T: Indexed>(s: Seq<T::V>, i: int)
    requires
        ascending::<T>(s),
        distinct_indices::<T>(s),
        0 <= i < s.len(),
    ensures
        T::key_of(s[i]) >= i,
    decreases i,
{
    if i > 0 {
        lemma_at_least_position::<T>(s, i - 1);
        assert(T::key_of(s[i - 1]) <= T::key_of(s[i]));
        assert(T::key_of(s[i - 1]) != T::key_of(s[i]));
    }
}

proof fn lemma_at_most_position<T: Indexed>(s: Seq<T::V>, i: int)
    requires
        ascending::<T>(s),
        distinct_indices::<T>(s),
        indices_in_range::<T>(s, s.len() as int),
        0 <= i < s.len(),
    ensures
        T::key_of(s[i]) <= i,
    decreases s.len() - i,
{
    if i + 1 < s.len() {
        lemma_at_most_position::<T>(s, i + 1);
        assert(T::key_of(s[i]) <= T::key_of(s[i + 1]));
        assert(T::key_of(s[i]) != T::key_of(s[i + 1]));
    }
}

/// Where the records of a block carry each of the indices `0..n` once, in
/// whatever order, the sorted block holds at every position the record
/// with that index.
pub proof fn lemma_sorted_indices_are_positions<T: Indexed>(s: Seq<T::V>)
    requires
        distinct_indices::<T>(s),
        indices_in_range::<T>(s, s.len() as int),
    ensures
        sort_by_index::<T>(s).len() == s.len(),
        forall|i: int|
            0 <= i < s.len() ==> T::key_of(#[trigger] sort_by_index::<T>(s)[i]) == i,
{
    lemma_sort_by_index::<T>(s);
    let out = sort_by_index::<T>(s);
    assert(indices_in_range::<T>(out, out.len() as int)) by {
        assert forall|i: int| 0 <= i < out.len() implies T::key_of(#[trigger] out[i])
            < out.len() by {
            assert(s.contains(out[i]));
            let w = choose|w: int| 0 <= w < s.len() && s[w] == out[i];
            assert(T::key_of(s[w]) < s.len());
        }
    }
    assert forall|i: int| 0 <= i < s.len() implies T::key_of(#[trigger] out[i]) == i by {
        lemma_at_least_position::<T>(out, i);
        lemma_at_most_position::<T>(out, i);
    }
}

/// Sorts records by index, keeping the order of records that share one.
pub fn sort_records<T: Indexed>(items: Vec<T>) -> (out: Vec<T>)
    ensures
        out.deep_view() == sort_by_index::<T>(items.deep_view()),
        out.len() == items.len(),
        ascending::<T>(out.deep_view()),
{
    let ghost all = items.deep_view();
    let ghost n = all.len() as int;
    let mut src = items;
    let mut out: Vec<T> = Vec::new();
    proof {
        assert(src.deep_view() =~= all.subrange(0, n));
        assert(all.subrange(n, n) =~= Seq::empty());
        assert(out.deep_view() =~= Seq::empty());
    }
    while src.len() > 0
        invariant
            n == all.len(),
            src.len() <= n,
            src.deep_view() == all.subrange(0, src.len() as int),
            out.deep_view() == sort_by_index::<T>(all.subrange(src.len() as int, n)),
            out.len() == n - src.len(),
        decreases src.len(),
    {
        let ghost before = src.deep_view();
        let ghost rest = out.deep_view();
        let ghost m = src.len() as int;
        let v = src.pop().unwrap();
        let k = v.key();
        proof {
            assert(v.deep_view() == before[m - 1]);
            assert(src.deep_view() =~= all.subrange(0, m - 1));
            let suffix = all.subrange(m - 1, n);
            assert(suffix.first() == v.deep_view());
            assert(suffix.drop_first() =~= all.subrange(m, n));
        }
        let mut j: usize = 0;
        while j < out.len() && out[j].key() < k
            invariant
                j <= out.len(),
                out.deep_view() == rest,
                slot_from::<T>(k, rest, 0) == slot_from::<T>(k, rest, j as int),
            decreases out.len() - j,
        {
            proof {
                assert(rest[j as int] == out@[j as int].deep_view());
            }
            j += 1;
        }
        proof {
            if j < out.len() {
                assert(rest[j as int] == out@[j as int].deep_view());
            }
        }
        let ghost item = v.deep_view();
        out.insert(j, v);
        proof {
            assert(out.deep_view() =~= rest.insert(j as int, item));
        }
    }
    proof {
        assert(all.subrange(0, n) =~= all);
        lemma_sort_by_index::<T>(all);
    }
    out
}

} // verus!
