//! Mathematical model of the diff.
//!
//! A residual store is modelled as a sequence of `(key, payload)` entries in
//! insertion order; the diff itself is the recursive function
//! [`diff_outputs`], which consumes the "next" sequence one entry at a time
//! and then drains the store as deletions.

use vstd::prelude::*;

use crate::ListImd;

verus! {

/// Index of the first entry of `s` whose key is `k`, or `-1` if there is none.
pub open spec fn find_key<A>(s: Seq<(u64, A)>, k: u64) -> int
    decreases s.len(),
{
    if s.len() == 0 {
        -1
    } else if s[0].0 == k {
        0
    } else {
        let r = find_key(s.skip(1), k);
        if r < 0 {
            -1
        } else {
            r + 1
        }
    }
}

/// Index of the first occurrence of `k` in `s`, or `-1` if there is none.
pub open spec fn find_elem(s: Seq<u64>, k: u64) -> int
    decreases s.len(),
{
    if s.len() == 0 {
        -1
    } else if s[0] == k {
        0
    } else {
        let r = find_elem(s.skip(1), k);
        if r < 0 {
            -1
        } else {
            r + 1
        }
    }
}

/// No two entries of `s` share a key.
pub open spec fn distinct_keys<A>(s: Seq<(u64, A)>) -> bool {
    forall|i: int, j: int| 0 <= i < j < s.len() ==> s[i].0 != s[j].0
}

/// The entry sequence of a key-to-payload store built from `s`, inserting
/// left to right: an entry with a fresh key is appended, an entry with a key
/// already present replaces that key's payload in place (last write wins).
pub open spec fn build_store<A>(s: Seq<(u64, A)>) -> Seq<(u64, A)>
    decreases s.len(),
{
    if s.len() == 0 {
        Seq::empty()
    } else {
        let prefix = build_store(s.drop_last());
        let e = s.last();
        let i = find_key(prefix, e.0);
        if i >= 0 {
            prefix.update(i, e)
        } else {
            prefix.push(e)
        }
    }
}

/// The element sequence of a set built from `s`, inserting left to right:
/// a fresh element is appended, a duplicate leaves the set unchanged.
pub open spec fn build_set(s: Seq<u64>) -> Seq<u64>
    decreases s.len(),
{
    if s.len() == 0 {
        Seq::empty()
    } else {
        let prefix = build_set(s.drop_last());
        if find_elem(prefix, s.last()) >= 0 {
            prefix
        } else {
            prefix.push(s.last())
        }
    }
}

/// The whole output of the diff, given a residual store `store` (entries in
/// insertion order) and the still unconsumed keyed "next" sequence `next`:
/// each next entry whose key is in the store yields a modification and
/// removes the matched entry, each other next entry yields an insertion, and
/// once `next` is exhausted the remaining store entries are deletions, in
/// store order.
pub open spec fn diff_outputs<A, B>(store: Seq<(u64, A)>, next: Seq<(u64, B)>) -> Seq<
    ListImd<A, B>,
>
    decreases next.len(),
{
    if next.len() == 0 {
        store.map_values(|e: (u64, A)| ListImd::Delete(e.1))
    } else {
        let i = find_key(store, next[0].0);
        if i >= 0 {
            seq![ListImd::Modify(store[i].1, next[0].1)] + diff_outputs(
                store.remove(i),
                next.skip(1),
            )
        } else {
            seq![ListImd::Insert(next[0].1)] + diff_outputs(store, next.skip(1))
        }
    }
}

/// The diff of two keyed sequences: the "previous" sequence is first folded
/// into a store (last write wins on duplicate keys), then consumed against
/// `next` by [`diff_outputs`].
pub open spec fn diff_spec<A, B>(prev: Seq<(u64, A)>, next: Seq<(u64, B)>) -> Seq<
    ListImd<A, B>,
> {
    diff_outputs(build_store(prev), next)
}

/// Pair each key of `keys` with the value of `vals` at the same position.
pub open spec fn pair_seq<T>(keys: Seq<u64>, vals: Seq<T>) -> Seq<(u64, T)>
    recommends
        keys.len() == vals.len(),
{
    Seq::new(keys.len(), |i: int| (keys[i], vals[i]))
}

/// A self-keyed sequence: each element is both key and payload.
pub open spec fn self_keyed(s: Seq<u64>) -> Seq<(u64, u64)> {
    s.map_values(|k: u64| (k, k))
}

/// An indexed keyed sequence: the payload of position `i` is `(i, vals[i])`
/// and its key is `keys[i]`.
pub open spec fn indexed_keyed(keys: Seq<u64>, vals: Seq<u64>) -> Seq<(u64, (usize, u64))>
    recommends
        keys.len() == vals.len(),
{
    Seq::new(keys.len(), |i: int| (keys[i], (i as usize, vals[i])))
}

/// The entry sequence of the key-to-position store built from `keys`: the
/// key at position `i` maps to `i` itself.
pub open spec fn key_index_pairs(keys: Seq<u64>) -> Seq<(u64, usize)> {
    Seq::new(keys.len(), |i: int| (keys[i], i as usize))
}

/// A vector never holds more elements than `usize` counts.
pub proof fn lemma_vec_len_bound<T>(v: &Vec<T>)
    ensures
        v@.len() <= usize::MAX,
{
    broadcast use vstd::std_specs::vec::axiom_spec_len;

    assert(vstd::std_specs::vec::spec_vec_len(v) == v@.len());
}

/// The transformation that replaces a stored position by the payload at
/// that position of `items`, keeping the key.
pub open spec fn lookup_fn<A>(items: Seq<A>) -> spec_fn((u64, usize)) -> (u64, A) {
    |e: (u64, usize)| (e.0, items[e.1 as int])
}

/// What [`find_key`] finds: a position holding the key, before which the key
/// does not occur; or, when negative, the key occurs nowhere.
pub proof fn lemma_find_key_props<A>(s: Seq<(u64, A)>, k: u64)
    ensures
        find_key(s, k) >= 0 ==> 0 <= find_key(s, k) < s.len() && s[find_key(s, k)].0 == k,
        find_key(s, k) >= 0 ==> forall|i: int| 0 <= i < find_key(s, k) ==> s[i].0 != k,
        find_key(s, k) < 0 ==> forall|i: int| 0 <= i < s.len() ==> s[i].0 != k,
    decreases s.len(),
{
    if s.len() > 0 && s[0].0 != k {
        lemma_find_key_props(s.skip(1), k);
        let r = find_key(s.skip(1), k);
        if r >= 0 {
            assert(s[r + 1] == s.skip(1)[r]);
            assert forall|i: int| 0 <= i < r + 1 implies s[i].0 != k by {
                if i > 0 {
                    assert(s[i] == s.skip(1)[i - 1]);
                }
            }
        } else {
            assert forall|i: int| 0 <= i < s.len() implies s[i].0 != k by {
                if i > 0 {
                    assert(s[i] == s.skip(1)[i - 1]);
                }
            }
        }
    }
}

/// What [`find_elem`] finds, as in [`lemma_find_key_props`].
pub proof fn lemma_find_elem_props(s: Seq<u64>, k: u64)
    ensures
        find_elem(s, k) >= 0 ==> 0 <= find_elem(s, k) < s.len() && s[find_elem(s, k)] == k,
        find_elem(s, k) >= 0 ==> forall|i: int| 0 <= i < find_elem(s, k) ==> s[i] != k,
        find_elem(s, k) < 0 ==> forall|i: int| 0 <= i < s.len() ==> s[i] != k,
    decreases s.len(),
{
    if s.len() > 0 && s[0] != k {
        lemma_find_elem_props(s.skip(1), k);
        let r = find_elem(s.skip(1), k);
        if r >= 0 {
            assert(s[r + 1] == s.skip(1)[r]);
            assert forall|i: int| 0 <= i < r + 1 implies s[i] != k by {
                if i > 0 {
                    assert(s[i] == s.skip(1)[i - 1]);
                }
            }
        } else {
            assert forall|i: int| 0 <= i < s.len() implies s[i] != k by {
                if i > 0 {
                    assert(s[i] == s.skip(1)[i - 1]);
                }
            }
        }
    }
}

/// A payload transformation that keeps keys does not move what a key search
/// finds.
pub proof fn lemma_find_key_map_values<A, B>(
    s: Seq<(u64, A)>,
    f: spec_fn((u64, A)) -> (u64, B),
    k: u64,
)
    requires
        forall|e: (u64, A)| (#[trigger] f(e)).0 == e.0,
    ensures
        find_key(s.map_values(f), k) == find_key(s, k),
    decreases s.len(),
{
    if s.len() > 0 {
        assert(s.map_values(f).skip(1) =~= s.skip(1).map_values(f));
        lemma_find_key_map_values(s.skip(1), f, k);
    }
}

/// In a self-keyed entry sequence a key search finds what an element search
/// finds.
pub proof fn lemma_find_key_self_keyed(s: Seq<u64>, k: u64)
    ensures
        find_key(self_keyed(s), k) == find_elem(s, k),
    decreases s.len(),
{
    if s.len() > 0 {
        assert(self_keyed(s).skip(1) =~= self_keyed(s.skip(1)));
        lemma_find_key_self_keyed(s.skip(1), k);
    }
}

/// Building a store commutes with a payload transformation that keeps keys.
pub proof fn lemma_build_store_map_values<A, B>(
    s: Seq<(u64, A)>,
    f: spec_fn((u64, A)) -> (u64, B),
)
    requires
        forall|e: (u64, A)| (#[trigger] f(e)).0 == e.0,
    ensures
        build_store(s.map_values(f)) == build_store(s).map_values(f),
    decreases s.len(),
{
    if s.len() > 0 {
        assert(s.map_values(f).drop_last() =~= s.drop_last().map_values(f));
        lemma_build_store_map_values(s.drop_last(), f);
        lemma_find_key_map_values(build_store(s.drop_last()), f, s.last().0);
        let prefix = build_store(s.drop_last());
        lemma_find_key_props(prefix, s.last().0);
        let i = find_key(prefix, s.last().0);
        if i >= 0 {
            assert(prefix.update(i, s.last()).map_values(f) =~= prefix.map_values(f).update(
                i,
                f(s.last()),
            ));
        } else {
            assert(prefix.push(s.last()).map_values(f) =~= prefix.map_values(f).push(
                f(s.last()),
            ));
        }
    } else {
        assert(s.map_values(f) =~= Seq::<(u64, B)>::empty());
        assert(build_store(s).map_values(f) =~= Seq::<(u64, B)>::empty());
    }
}

/// Every entry of a built store is one of the entries it was built from.
pub proof fn lemma_build_store_entries_from<A>(s: Seq<(u64, A)>)
    ensures
        forall|j: int|
            0 <= j < build_store(s).len() ==> exists|i: int|
                0 <= i < s.len() && #[trigger] build_store(s)[j] == s[i],
    decreases s.len(),
{
    if s.len() > 0 {
        lemma_build_store_entries_from(s.drop_last());
        let prefix = build_store(s.drop_last());
        lemma_find_key_props(prefix, s.last().0);
        assert forall|j: int| 0 <= j < build_store(s).len() implies exists|i: int|
            0 <= i < s.len() && #[trigger] build_store(s)[j] == s[i] by {
            if j < prefix.len() && build_store(s)[j] == prefix[j] {
                let i = choose|i: int| 0 <= i < s.drop_last().len() && prefix[j] == s.drop_last()[
                    i
                ];
                assert(s.drop_last()[i] == s[i]);
                assert(build_store(s)[j] == s[i]);
            } else {
                assert(build_store(s)[j] == s.last());
                assert(s.last() == s[s.len() - 1]);
            }
        }
    }
}

/// Over self-keyed elements the store and the set agree: building the store
/// from `(k, k)` pairs is building the set and self-keying the result.
pub proof fn lemma_build_store_self_keyed(s: Seq<u64>)
    ensures
        build_store(self_keyed(s)) == self_keyed(build_set(s)),
    decreases s.len(),
{
    if s.len() > 0 {
        assert(self_keyed(s).drop_last() =~= self_keyed(s.drop_last()));
        lemma_build_store_self_keyed(s.drop_last());
        let prefix = build_set(s.drop_last());
        let k = s.last();
        lemma_find_key_self_keyed(prefix, k);
        lemma_find_elem_props(prefix, k);
        let i = find_elem(prefix, k);
        if i >= 0 {
            assert(self_keyed(prefix).update(i, (k, k)) =~= self_keyed(prefix));
        } else {
            assert(self_keyed(prefix).push((k, k)) =~= self_keyed(prefix.push(k)));
        }
    } else {
        assert(self_keyed(s) =~= Seq::<(u64, u64)>::empty());
        assert(self_keyed(build_set(s)) =~= Seq::<(u64, u64)>::empty());
    }
}

/// The store entries that no key of `next` matches, in store order.
pub open spec fn keep_unmatched<A, B>(store: Seq<(u64, A)>, next: Seq<(u64, B)>) -> Seq<
    (u64, A),
>
    decreases store.len(),
{
    if store.len() == 0 {
        store
    } else if find_key(next, store[0].0) >= 0 {
        keep_unmatched(store.skip(1), next)
    } else {
        seq![store[0]] + keep_unmatched(store.skip(1), next)
    }
}

} // verus!
