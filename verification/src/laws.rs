//! The guarantees the diff gives, stated and proved over the model.
//!
//! Everything here is about [`diff_spec`] and [`diff_outputs`], the exact
//! value that the contracts of the public constructors and of the iterators'
//! `next` methods pin the executable output to.

use vstd::prelude::*;

use crate::ListImd;
use crate::model::{
    build_store, diff_outputs, diff_spec, distinct_keys, find_elem, find_key, indexed_keyed,
    keep_unmatched, lemma_find_elem_props, lemma_find_key_props,
};

verus! {

/// A store with distinct keys is its own built store: building appends each
/// entry in turn and never revisits one.
pub proof fn lemma_build_store_distinct<A>(s: Seq<(u64, A)>)
    requires
        distinct_keys(s),
    ensures
        build_store(s) == s,
    decreases s.len(),
{
    if s.len() > 0 {
        assert(distinct_keys(s.drop_last()));
        lemma_build_store_distinct(s.drop_last());
        lemma_find_key_props(s.drop_last(), s.last().0);
        assert(find_key(s.drop_last(), s.last().0) < 0) by {
            if find_key(s.drop_last(), s.last().0) >= 0 {
                let i = find_key(s.drop_last(), s.last().0);
                assert(s[i].0 == s[s.len() - 1].0);
            }
        }
        assert(s.drop_last().push(s.last()) =~= s);
    }
}

/// Removing an entry keeps the remaining keys distinct.
proof fn lemma_distinct_remove<A>(s: Seq<(u64, A)>, i: int)
    requires
        distinct_keys(s),
        0 <= i < s.len(),
    ensures
        distinct_keys(s.remove(i)),
{
    assert forall|a: int, b: int| 0 <= a < b < s.remove(i).len() implies s.remove(i)[a].0 != s.remove(
        i,
    )[b].0 by {
        let a0: int = if a < i {
            a
        } else {
            a + 1
        };
        let b0: int = if b < i {
            b
        } else {
            b + 1
        };
        assert(s.remove(i)[a] == s[a0]);
        assert(s.remove(i)[b] == s[b0]);
    }
}

/// Where a key search finds after removing a foreign entry: presence is
/// unchanged, and the found entry is the same one.
proof fn lemma_find_key_remove<A>(s: Seq<(u64, A)>, i: int, k: u64)
    requires
        distinct_keys(s),
        0 <= i < s.len(),
        s[i].0 != k,
    ensures
        find_key(s.remove(i), k) >= 0 <==> find_key(s, k) >= 0,
        find_key(s, k) >= 0 ==> s.remove(i)[find_key(s.remove(i), k)] == s[find_key(s, k)],
{
    lemma_find_key_props(s, k);
    lemma_find_key_props(s.remove(i), k);
    if find_key(s, k) >= 0 {
        let j = find_key(s, k);
        let j2: int = if j < i {
            j
        } else {
            j - 1
        };
        assert(s.remove(i)[j2] == s[j]);
        assert(find_key(s.remove(i), k) >= 0) by {
            if find_key(s.remove(i), k) < 0 {
                assert(s.remove(i)[j2].0 != k);
            }
        }
        let j3 = find_key(s.remove(i), k);
        let j4: int = if j3 < i {
            j3
        } else {
            j3 + 1
        };
        assert(s.remove(i)[j3] == s[j4]);
        assert(s[j4].0 == k);
        assert(j4 == j) by {
            if j4 != j {
                assert(s[j4].0 == s[j].0);
            }
        }
    } else {
        if find_key(s.remove(i), k) >= 0 {
            let j3 = find_key(s.remove(i), k);
            let j4: int = if j3 < i {
                j3
            } else {
                j3 + 1
            };
            assert(s.remove(i)[j3] == s[j4]);
        }
    }
}

/// With no keys of `next` left to match, every store entry is unmatched.
proof fn lemma_keep_unmatched_empty<A, B>(store: Seq<(u64, A)>, next: Seq<(u64, B)>)
    requires
        next.len() == 0,
    ensures
        keep_unmatched(store, next) == store,
    decreases store.len(),
{
    if store.len() > 0 {
        lemma_keep_unmatched_empty(store.skip(1), next);
        assert(seq![store[0]] + store.skip(1) =~= store);
    }
}

/// A "next" key that occurs nowhere in the store can be dropped without
/// changing which store entries stay unmatched.
proof fn lemma_keep_unmatched_absent<A, B>(store: Seq<(u64, A)>, next: Seq<(u64, B)>)
    requires
        next.len() > 0,
        forall|i: int| 0 <= i < store.len() ==> (#[trigger] store[i]).0 != next[0].0,
    ensures
        keep_unmatched(store, next) == keep_unmatched(store, next.skip(1)),
    decreases store.len(),
{
    if store.len() > 0 {
        assert(forall|i: int|
            0 <= i < store.skip(1).len() ==> (#[trigger] store.skip(1)[i]).0 != next[0].0);
        lemma_keep_unmatched_absent(store.skip(1), next);
        assert(find_key(next, store[0].0) == if find_key(next.skip(1), store[0].0) < 0 {
            -1
        } else {
            find_key(next.skip(1), store[0].0) + 1
        });
    }
}

/// Matching away the store entry that the head of `next` finds leaves the
/// same unmatched entries as dropping that head.
proof fn lemma_keep_unmatched_matched<A, B>(store: Seq<(u64, A)>, next: Seq<(u64, B)>)
    requires
        next.len() > 0,
        distinct_keys(store),
        find_key(store, next[0].0) >= 0,
    ensures
        keep_unmatched(store, next) == keep_unmatched(
            store.remove(find_key(store, next[0].0)),
            next.skip(1),
        ),
    decreases store.len(),
{
    let k0 = next[0].0;
    let i0 = find_key(store, k0);
    lemma_find_key_props(store, k0);
    if i0 == 0 {
        assert(find_key(next, store[0].0) >= 0);
        assert(keep_unmatched(store, next) == keep_unmatched(store.skip(1), next));
        assert(store.remove(0) =~= store.skip(1));
        assert forall|i: int| 0 <= i < store.skip(1).len() implies (#[trigger] store.skip(1)[
            i
        ]).0 != k0 by {
            assert(store.skip(1)[i] == store[i + 1]);
        }
        lemma_keep_unmatched_absent(store.skip(1), next);
    } else {
        assert(store[0].0 != k0);
        assert(distinct_keys(store.skip(1))) by {
            assert forall|a: int, b: int|
                0 <= a < b < store.skip(1).len() implies (#[trigger] store.skip(1)[a]).0 != (
            #[trigger] store.skip(1)[b]).0 by {
                assert(store.skip(1)[a] == store[a + 1]);
                assert(store.skip(1)[b] == store[b + 1]);
            }
        }
        assert(find_key(store.skip(1), k0) == i0 - 1);
        lemma_keep_unmatched_matched(store.skip(1), next);
        assert(store.remove(i0)[0] == store[0]);
        assert(store.remove(i0).skip(1) =~= store.skip(1).remove(i0 - 1));
        assert(find_key(next, store[0].0) == if find_key(next.skip(1), store[0].0) < 0 {
            -1
        } else {
            find_key(next.skip(1), store[0].0) + 1
        });
        assert(keep_unmatched(store, next) == keep_unmatched(
            store.remove(i0),
            next.skip(1),
        )) by {
            if find_key(next, store[0].0) >= 0 {
                assert(keep_unmatched(store, next) == keep_unmatched(store.skip(1), next));
                assert(keep_unmatched(store.remove(i0), next.skip(1)) == keep_unmatched(
                    store.skip(1).remove(i0 - 1),
                    next.skip(1),
                ));
            } else {
                assert(keep_unmatched(store, next) == seq![store[0]] + keep_unmatched(
                    store.skip(1),
                    next,
                ));
                assert(keep_unmatched(store.remove(i0), next.skip(1)) == seq![store[0]]
                    + keep_unmatched(store.skip(1).remove(i0 - 1), next.skip(1)));
            }
        }
    }
}

/// The complete shape of the diff, for stores and "next" sequences without
/// duplicate keys: position `i` below `next.len()` answers `next[i]` — a
/// modification paired with the store entry of the same key when there is
/// one, an insertion otherwise — and what follows is exactly the unmatched
/// store entries, in store order, as deletions.
pub proof fn lemma_diff_characterize<A, B>(store: Seq<(u64, A)>, next: Seq<(u64, B)>)
    requires
        distinct_keys(store),
        distinct_keys(next),
    ensures
        diff_outputs(store, next).len() == next.len() + keep_unmatched(store, next).len(),
        diff_outputs(store, next).skip(next.len() as int) == keep_unmatched(
            store,
            next,
        ).map_values(|e: (u64, A)| ListImd::<A, B>::Delete(e.1)),
        forall|i: int|
            0 <= i < next.len() ==> #[trigger] diff_outputs(store, next)[i] == (if find_key(
                store,
                (#[trigger] next[i]).0,
            ) >= 0 {
                ListImd::<A, B>::Modify(store[find_key(store, next[i].0)].1, next[i].1)
            } else {
                ListImd::<A, B>::Insert(next[i].1)
            }),
    decreases next.len(),
{
    let out = diff_outputs(store, next);
    if next.len() == 0 {
        lemma_keep_unmatched_empty(store, next);
        assert(out.skip(0) =~= out);
    } else {
        let k0 = next[0].0;
        let i0 = find_key(store, k0);
        lemma_find_key_props(store, k0);
        assert(distinct_keys(next.skip(1))) by {
            assert forall|a: int, b: int|
                0 <= a < b < next.skip(1).len() implies (#[trigger] next.skip(1)[a]).0 != (
            #[trigger] next.skip(1)[b]).0 by {
                assert(next.skip(1)[a] == next[a + 1]);
                assert(next.skip(1)[b] == next[b + 1]);
            }
        }
        if i0 >= 0 {
            let store2 = store.remove(i0);
            lemma_distinct_remove(store, i0);
            lemma_diff_characterize(store2, next.skip(1));
            lemma_keep_unmatched_matched(store, next);
            let head = seq![ListImd::<A, B>::Modify(store[i0].1, next[0].1)];
            let out2 = diff_outputs(store2, next.skip(1));
            assert(out == head + out2);
            assert(out.skip(next.len() as int) =~= out2.skip(next.len() - 1));
            assert forall|i: int| 0 <= i < next.len() implies #[trigger] out[i] == (if find_key(
                store,
                (#[trigger] next[i]).0,
            ) >= 0 {
                ListImd::<A, B>::Modify(store[find_key(store, next[i].0)].1, next[i].1)
            } else {
                ListImd::<A, B>::Insert(next[i].1)
            }) by {
                if i == 0 {
                    assert(out[0] == head[0]);
                } else {
                    assert(out[i] == out2[i - 1]);
                    assert(next.skip(1)[i - 1] == next[i]);
                    assert(next[i].0 != k0);
                    assert(store[i0].0 == k0);
                    lemma_find_key_remove(store, i0, next[i].0);
                    lemma_find_key_props(store, next[i].0);
                    lemma_find_key_props(store2, next[i].0);
                }
            }
        } else {
            lemma_diff_characterize(store, next.skip(1));
            lemma_keep_unmatched_absent(store, next);
            let head = seq![ListImd::<A, B>::Insert(next[0].1)];
            let out2 = diff_outputs(store, next.skip(1));
            assert(out == head + out2);
            assert(out.skip(next.len() as int) =~= out2.skip(next.len() - 1));
            assert forall|i: int| 0 <= i < next.len() implies #[trigger] out[i] == (if find_key(
                store,
                (#[trigger] next[i]).0,
            ) >= 0 {
                ListImd::<A, B>::Modify(store[find_key(store, next[i].0)].1, next[i].1)
            } else {
                ListImd::<A, B>::Insert(next[i].1)
            }) by {
                if i == 0 {
                    assert(out[0] == head[0]);
                } else {
                    assert(out[i] == out2[i - 1]);
                    assert(next.skip(1)[i - 1] == next[i]);
                }
            }
        }
    }
}

/// What stays unmatched: every kept entry is a store entry whose key occurs
/// nowhere in `next`, and every such store entry is kept.
pub proof fn lemma_keep_unmatched_description<A, B>(store: Seq<(u64, A)>, next: Seq<(u64, B)>)
    ensures
        forall|j: int|
            0 <= j < keep_unmatched(store, next).len() ==> exists|i: int|
                0 <= i < store.len() && #[trigger] keep_unmatched(store, next)[j] == store[i]
                    && find_key(next, store[i].0) < 0,
        forall|i: int|
            0 <= i < store.len() && find_key(next, (#[trigger] store[i]).0) < 0
                ==> keep_unmatched(store, next).contains(store[i]),
    decreases store.len(),
{
    if store.len() > 0 {
        lemma_keep_unmatched_description(store.skip(1), next);
        let keep = keep_unmatched(store, next);
        let tail = keep_unmatched(store.skip(1), next);
        assert forall|j: int| 0 <= j < keep.len() implies exists|i: int|
            0 <= i < store.len() && #[trigger] keep[j] == store[i] && find_key(next, store[i].0)
                < 0 by {
            if find_key(next, store[0].0) >= 0 {
                let i0 = choose|i: int|
                    0 <= i < store.skip(1).len() && tail[j] == store.skip(1)[i] && find_key(
                        next,
                        store.skip(1)[i].0,
                    ) < 0;
                assert(store.skip(1)[i0] == store[i0 + 1]);
                assert(keep[j] == store[i0 + 1] && find_key(next, store[i0 + 1].0) < 0);
            } else {
                if j == 0 {
                    assert(keep[0] == store[0] && find_key(next, store[0].0) < 0);
                } else {
                    assert(keep[j] == tail[j - 1]);
                    let i0 = choose|i: int|
                        0 <= i < store.skip(1).len() && tail[j - 1] == store.skip(1)[i]
                            && find_key(next, store.skip(1)[i].0) < 0;
                    assert(store.skip(1)[i0] == store[i0 + 1]);
                    assert(keep[j] == store[i0 + 1] && find_key(next, store[i0 + 1].0) < 0);
                }
            }
        }
        assert forall|i: int|
            0 <= i < store.len() && find_key(next, (#[trigger] store[i]).0)
                < 0 implies keep.contains(store[i]) by {
            if i == 0 {
                assert(find_key(next, store[0].0) < 0);
                assert(keep[0] == store[0]);
            } else {
                assert(store.skip(1)[i - 1] == store[i]);
                assert(tail.contains(store.skip(1)[i - 1]));
                let j = choose|j: int| 0 <= j < tail.len() && tail[j] == store[i];
                if find_key(next, store[0].0) >= 0 {
                    assert(keep[j] == store[i]);
                } else {
                    assert(keep[j + 1] == store[i]);
                }
            }
        }
    }
}

/// Where a key search over a pair sequence with the given keys finds, an
/// element search over the keys alone finds too.
proof fn lemma_find_key_by_keys<A>(s: Seq<(u64, A)>, keys: Seq<u64>, k: u64)
    requires
        s.len() == keys.len(),
        forall|i: int| 0 <= i < s.len() ==> (#[trigger] s[i]).0 == keys[i],
    ensures
        find_key(s, k) == find_elem(keys, k),
{
    lemma_find_key_props(s, k);
    lemma_find_elem_props(keys, k);
    let a = find_key(s, k);
    let b = find_elem(keys, k);
    if a >= 0 && b >= 0 {
        assert(keys[a] == k);
        assert(s[b].0 == k);
        if a < b {
            assert(keys[a] != k);
        }
        if b < a {
            assert(s[b].0 != k);
        }
    } else if a >= 0 {
        assert(keys[a] == k);
        assert(keys[a] != k);
    } else if b >= 0 {
        assert(s[b].0 == k);
        assert(s[b].0 != k);
    }
}

/// Completeness: over sequences without duplicate keys, every key of either
/// side is answered exactly once. Each "next" entry yields, at its own
/// position, a modification paired with the previous entry of the same key
/// when the key is common, an insertion when the key is new; and the
/// deletions are exactly the previous entries whose key does not occur in
/// "next".
pub proof fn lemma_completeness<A, B>(prev: Seq<(u64, A)>, next: Seq<(u64, B)>)
    requires
        distinct_keys(prev),
        distinct_keys(next),
    ensures
        diff_spec(prev, next).len() == next.len() + keep_unmatched(prev, next).len(),
        forall|i: int|
            0 <= i < next.len() && find_key(prev, (#[trigger] next[i]).0) >= 0 ==> diff_spec(
                prev,
                next,
            )[i] == ListImd::<A, B>::Modify(prev[find_key(prev, next[i].0)].1, next[i].1),
        forall|i: int|
            0 <= i < next.len() && find_key(prev, (#[trigger] next[i]).0) < 0 ==> diff_spec(
                prev,
                next,
            )[i] == ListImd::<A, B>::Insert(next[i].1),
        diff_spec(prev, next).skip(next.len() as int) == keep_unmatched(prev, next).map_values(
            |e: (u64, A)| ListImd::<A, B>::Delete(e.1),
        ),
        forall|j: int|
            0 <= j < keep_unmatched(prev, next).len() ==> exists|i: int|
                0 <= i < prev.len() && #[trigger] keep_unmatched(prev, next)[j] == prev[i]
                    && find_key(next, prev[i].0) < 0,
        forall|i: int|
            0 <= i < prev.len() && find_key(next, (#[trigger] prev[i]).0) < 0 ==> keep_unmatched(
                prev,
                next,
            ).contains(prev[i]),
{
    lemma_build_store_distinct(prev);
    lemma_diff_characterize(prev, next);
    lemma_keep_unmatched_description(prev, next);
}

/// Ordering: over sequences without duplicate keys, the results come out as
/// one insertion or modification per "next" entry, at that entry's own
/// position and hence in "next" order, followed by nothing but deletions,
/// which are the unmatched previous entries in their original order.
pub proof fn lemma_ordering<A, B>(prev: Seq<(u64, A)>, next: Seq<(u64, B)>)
    requires
        distinct_keys(prev),
        distinct_keys(next),
    ensures
        diff_spec(prev, next).len() == next.len() + keep_unmatched(prev, next).len(),
        forall|i: int|
            0 <= i < next.len() ==> (#[trigger] diff_spec(prev, next)[i] is Modify || diff_spec(
                prev,
                next,
            )[i] is Insert),
        forall|j: int|
            next.len() <= j < diff_spec(prev, next).len() ==> #[trigger] diff_spec(
                prev,
                next,
            )[j] is Delete,
        diff_spec(prev, next).skip(next.len() as int) == keep_unmatched(prev, next).map_values(
            |e: (u64, A)| ListImd::<A, B>::Delete(e.1),
        ),
{
    lemma_build_store_distinct(prev);
    lemma_diff_characterize(prev, next);
    let out = diff_spec(prev, next);
    let dels = keep_unmatched(prev, next).map_values(
        |e: (u64, A)| ListImd::<A, B>::Delete(e.1),
    );
    assert forall|i: int| 0 <= i < next.len() implies (#[trigger] out[i] is Modify
        || out[i] is Insert) by {
        assert(out[i] == diff_outputs(prev, next)[i]);
        if find_key(prev, next[i].0) >= 0 {
            assert(diff_outputs(prev, next)[i] == ListImd::<A, B>::Modify(
                prev[find_key(prev, next[i].0)].1,
                next[i].1,
            ));
        } else {
            assert(diff_outputs(prev, next)[i] == ListImd::<A, B>::Insert(next[i].1));
        }
    }
    assert forall|j: int| next.len() <= j < out.len() implies #[trigger] out[j] is Delete by {
        assert(out[j] == out.skip(next.len() as int)[j - next.len()]);
        assert(out[j] == dels[j - next.len()]);
    }
}

/// Determinism: the diff is a function of the two input sequences alone, so
/// running it twice on identical inputs yields an identical result sequence.
/// The contracts of the constructors and of `next` pin each executable
/// output to this one value.
pub proof fn lemma_determinism<A, B>(
    prev1: Seq<(u64, A)>,
    next1: Seq<(u64, B)>,
    prev2: Seq<(u64, A)>,
    next2: Seq<(u64, B)>,
)
    requires
        prev1 == prev2,
        next1 == next2,
    ensures
        diff_spec(prev1, next1) == diff_spec(prev2, next2),
{
}

/// Indexed move detection: in the indexed modes, over key sequences without
/// duplicates, each key present on both sides yields a modification whose
/// payloads carry the element's true zero-based position in the previous
/// sequence and its true zero-based position in the next sequence; a key
/// only in "next" yields an insertion carrying its true position. The
/// self-keyed indexed mode is the case where each key sequence is the value
/// sequence itself.
pub proof fn lemma_indexed_move_detection(
    prev_keys: Seq<u64>,
    prev_vals: Seq<u64>,
    next_keys: Seq<u64>,
    next_vals: Seq<u64>,
)
    requires
        prev_keys.len() == prev_vals.len(),
        next_keys.len() == next_vals.len(),
        prev_keys.len() <= usize::MAX,
        next_keys.len() <= usize::MAX,
        forall|i: int, j: int| 0 <= i < j < prev_keys.len() ==> prev_keys[i] != prev_keys[j],
        forall|i: int, j: int| 0 <= i < j < next_keys.len() ==> next_keys[i] != next_keys[j],
    ensures
        forall|j: int|
            0 <= j < next_keys.len() && find_elem(prev_keys, #[trigger] next_keys[j]) >= 0
                ==> diff_spec(
                indexed_keyed(prev_keys, prev_vals),
                indexed_keyed(next_keys, next_vals),
            )[j] == ListImd::<(usize, u64), (usize, u64)>::Modify(
                (
                    find_elem(prev_keys, next_keys[j]) as usize,
                    prev_vals[find_elem(prev_keys, next_keys[j])],
                ),
                (j as usize, next_vals[j]),
            ),
        forall|j: int|
            0 <= j < next_keys.len() && find_elem(prev_keys, #[trigger] next_keys[j]) < 0
                ==> diff_spec(
                indexed_keyed(prev_keys, prev_vals),
                indexed_keyed(next_keys, next_vals),
            )[j] == ListImd::<(usize, u64), (usize, u64)>::Insert((j as usize, next_vals[j])),
{
    let store = indexed_keyed(prev_keys, prev_vals);
    let np = indexed_keyed(next_keys, next_vals);
    assert(distinct_keys(store));
    assert(distinct_keys(np));
    lemma_build_store_distinct(store);
    lemma_diff_characterize(store, np);
    assert forall|j: int|
        0 <= j < next_keys.len() && find_elem(prev_keys, #[trigger] next_keys[j])
            >= 0 implies diff_spec(store, np)[j] == ListImd::<(usize, u64), (usize, u64)>::Modify(
        (
            find_elem(prev_keys, next_keys[j]) as usize,
            prev_vals[find_elem(prev_keys, next_keys[j])],
        ),
        (j as usize, next_vals[j]),
    ) by {
        lemma_find_key_by_keys(store, prev_keys, next_keys[j]);
        lemma_find_elem_props(prev_keys, next_keys[j]);
        assert(np[j].0 == next_keys[j]);
        assert(store[find_elem(prev_keys, next_keys[j])].1 == (
            find_elem(prev_keys, next_keys[j]) as usize,
            prev_vals[find_elem(prev_keys, next_keys[j])],
        ));
    }
    assert forall|j: int|
        0 <= j < next_keys.len() && find_elem(prev_keys, #[trigger] next_keys[j])
            < 0 implies diff_spec(store, np)[j] == ListImd::<(usize, u64), (usize, u64)>::Insert(
        (j as usize, next_vals[j]),
    ) by {
        lemma_find_key_by_keys(store, prev_keys, next_keys[j]);
        assert(np[j].0 == next_keys[j]);
    }
}

/// Boundary: with an empty previous sequence every result is an insertion,
/// one per "next" entry, in "next" order.
pub proof fn lemma_empty_prev<A, B>(next: Seq<(u64, B)>)
    ensures
        diff_spec(Seq::<(u64, A)>::empty(), next) == next.map_values(
            |e: (u64, B)| ListImd::<A, B>::Insert(e.1),
        ),
    decreases next.len(),
{
    let store = Seq::<(u64, A)>::empty();
    if next.len() == 0 {
        assert(diff_outputs(store, next) =~= next.map_values(
            |e: (u64, B)| ListImd::<A, B>::Insert(e.1),
        ));
    } else {
        lemma_empty_prev::<A, B>(next.skip(1));
        assert(diff_outputs(store, next) == seq![ListImd::<A, B>::Insert(next[0].1)]
            + diff_outputs(store, next.skip(1)));
        assert(diff_outputs(store, next) =~= next.map_values(
            |e: (u64, B)| ListImd::<A, B>::Insert(e.1),
        ));
    }
}

/// Boundary: with an empty next sequence every result is a deletion, one per
/// stored previous entry, in previous order.
pub proof fn lemma_empty_next<A, B>(prev: Seq<(u64, A)>)
    ensures
        diff_spec(prev, Seq::<(u64, B)>::empty()) == build_store(prev).map_values(
            |e: (u64, A)| ListImd::<A, B>::Delete(e.1),
        ),
        distinct_keys(prev) ==> diff_spec(prev, Seq::<(u64, B)>::empty()) == prev.map_values(
            |e: (u64, A)| ListImd::<A, B>::Delete(e.1),
        ),
{
    if distinct_keys(prev) {
        lemma_build_store_distinct(prev);
    }
}

} // verus!
