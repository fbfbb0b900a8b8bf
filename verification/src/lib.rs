//! Difference between two sequences of keyed elements, expressed as
//! insertions, modifications and deletions.
//!
//! The "previous" sequence is consumed eagerly into a residual store; the
//! "next" sequence is consumed one element per pulled result. Insertions and
//! modifications come out in next-sequence order, followed by the deletions
//! in previous-sequence order.

use vstd::prelude::*;

pub mod iterators;
pub mod laws;
pub mod model;
pub mod ordmap;

use crate::iterators::{IterImd, IterImdMapped, MapOrIter, SetOrIter};
use crate::model::{
    diff_spec, indexed_keyed, key_index_pairs, lemma_build_store_map_values,
    lemma_build_store_self_keyed, lookup_fn, pair_seq, self_keyed,
};

verus! {

/// Insertion, modification and deletion in an ordered container.
#[derive(Debug, Clone, Copy, PartialEq, Eq)]
pub enum ListImd<A, B> {
    Insert(B),
    Modify(A, B),
    Delete(A),
}

/// Extension for diffing two sequences of unique keys as insertions,
/// modifications and removals.
///
/// Every method consumes the "previous" sequence (`self`) eagerly into a
/// residual store and returns an iterator that consumes the "next" sequence
/// one element per pulled result: insertions and modifications in
/// next-sequence order, then the deletions in previous-sequence order.
pub trait IterImdExt: Sized {
    /// The sequence of elements this value provides.
    spec fn elems(self) -> Seq<u64>;

    /// Express the difference between two sequences as insertions,
    /// modifications and removals, each element acting as its own key.
    fn iter_list_imd(self, next: Self) -> (r: IterImd)
        ensures
            r.wf(),
            r.remaining_outputs() == diff_spec(
                self_keyed(self.elems()),
                self_keyed(next.elems()),
            ),
    ;

    /// Express the difference between two sequences as insertions,
    /// modifications and removals, matching by caller-derived keys:
    /// `self_keys` and `other_keys` give, position by position, the key of
    /// each element of `self` and of `next`.
    fn iter_list_imd_mapped(
        self,
        next: Self,
        self_keys: Vec<u64>,
        other_keys: Vec<u64>,
    ) -> (r: IterImdMapped<u64, u64>)
        requires
            self_keys@.len() == self.elems().len(),
            other_keys@.len() == next.elems().len(),
        ensures
            r.wf(),
            r.remaining_outputs() == diff_spec(
                pair_seq(self_keys@, self.elems()),
                pair_seq(other_keys@, next.elems()),
            ),
    ;

    /// Express the difference between two sequences as insertions,
    /// modifications, moves and removals: each yielded payload carries the
    /// element's zero-based position in its own sequence, and elements match
    /// by value alone, so a move shows as a modification with two positions.
    fn iter_list_imd_indexed(self, next: Self) -> (r: IterImdMapped<(usize, u64), (usize, u64)>)
        ensures
            r.wf(),
            r.remaining_outputs() == diff_spec(
                indexed_keyed(self.elems(), self.elems()),
                indexed_keyed(next.elems(), next.elems()),
            ),
    ;

    /// Express the difference between two sequences as insertions,
    /// modifications, moves and removals, with positions attached as in
    /// `iter_list_imd_indexed` and keys derived as in `iter_list_imd_mapped`.
    fn iter_list_imd_indexed_mapped(
        self,
        next: Self,
        self_keys: Vec<u64>,
        other_keys: Vec<u64>,
    ) -> (r: IterImdMapped<(usize, u64), (usize, u64)>)
        requires
            self_keys@.len() == self.elems().len(),
            other_keys@.len() == next.elems().len(),
        ensures
            r.wf(),
            r.remaining_outputs() == diff_spec(
                indexed_keyed(self_keys@, self.elems()),
                indexed_keyed(other_keys@, next.elems()),
            ),
    ;
}

impl IterImdExt for Vec<u64> {
    open spec fn elems(self) -> Seq<u64> {
        self@
    }

    fn iter_list_imd(self, next: Self) -> (r: IterImd) {
        let prev = SetOrIter::from_elems(&self);
        let r = IterImd { prev, next, cursor: 0 };
        proof {
            lemma_build_store_self_keyed(self@);
            assert(r.next@.skip(0) =~= r.next@);
            assert(r.remaining_outputs() == diff_spec(
                self_keyed(self@),
                self_keyed(r.next@),
            ));
        }
        r
    }

    fn iter_list_imd_mapped(
        self,
        next: Self,
        self_keys: Vec<u64>,
        other_keys: Vec<u64>,
    ) -> (r: IterImdMapped<u64, u64>) {
        let prev = MapOrIter::from_keys(&self_keys);
        let mut pairs: Vec<(u64, u64)> = Vec::new();
        let n: usize = next.len();
        let mut i: usize = 0;
        while i < n
            invariant
                i <= n,
                n == next@.len(),
                other_keys@.len() == next@.len(),
                pairs@ == pair_seq(other_keys@, next@).take(i as int),
            decreases n - i,
        {
            pairs.push((other_keys[i], next[i]));
            proof {
                assert(pairs@ =~= pair_seq(other_keys@, next@).take(i + 1));
            }
            i = i + 1;
        }
        let r = IterImdMapped { prev, items: self, next: pairs, cursor: 0 };
        proof {
            assert(pair_seq(other_keys@, next@).take(n as int) =~= pair_seq(
                other_keys@,
                next@,
            ));
            crate::model::lemma_vec_len_bound(&r.items);
            crate::model::lemma_build_store_entries_from(key_index_pairs(self_keys@));
            assert(key_index_pairs(self_keys@).map_values(lookup_fn(r.items@)) =~= pair_seq(
                self_keys@,
                r.items@,
            ));
            lemma_build_store_map_values(key_index_pairs(self_keys@), lookup_fn(r.items@));
            assert(r.rem_next() =~= pair_seq(other_keys@, next@));
            assert(r.remaining_outputs() == diff_spec(
                pair_seq(self_keys@, r.items@),
                pair_seq(other_keys@, next@),
            ));
        }
        r
    }

    fn iter_list_imd_indexed(self, next: Self) -> (r: IterImdMapped<(usize, u64), (usize, u64)>) {
        let prev = MapOrIter::from_keys(&self);
        let mut items: Vec<(usize, u64)> = Vec::new();
        let np: usize = self.len();
        let mut i: usize = 0;
        while i < np
            invariant
                i <= np,
                np == self@.len(),
                items@.len() == i,
                forall|j: int| 0 <= j < i ==> items@[j] == (j as usize, self@[j]),
            decreases np - i,
        {
            items.push((i, self[i]));
            i = i + 1;
        }
        let mut pairs: Vec<(u64, (usize, u64))> = Vec::new();
        let n: usize = next.len();
        let mut j: usize = 0;
        while j < n
            invariant
                j <= n,
                n == next@.len(),
                pairs@ == indexed_keyed(next@, next@).take(j as int),
            decreases n - j,
        {
            pairs.push((next[j], (j, next[j])));
            proof {
                assert(pairs@ =~= indexed_keyed(next@, next@).take(j + 1));
            }
            j = j + 1;
        }
        let r = IterImdMapped { prev, items, next: pairs, cursor: 0 };
        proof {
            assert(indexed_keyed(next@, next@).take(n as int) =~= indexed_keyed(next@, next@));
            crate::model::lemma_vec_len_bound(&r.items);
            crate::model::lemma_build_store_entries_from(key_index_pairs(self@));
            assert(key_index_pairs(self@).map_values(lookup_fn(r.items@)) =~= indexed_keyed(
                self@,
                self@,
            ));
            lemma_build_store_map_values(key_index_pairs(self@), lookup_fn(r.items@));
            assert(r.rem_next() =~= indexed_keyed(next@, next@));
            assert(r.remaining_outputs() == diff_spec(
                indexed_keyed(self@, self@),
                indexed_keyed(next@, next@),
            ));
        }
        r
    }

    fn iter_list_imd_indexed_mapped(
        self,
        next: Self,
        self_keys: Vec<u64>,
        other_keys: Vec<u64>,
    ) -> (r: IterImdMapped<(usize, u64), (usize, u64)>) {
        let prev = MapOrIter::from_keys(&self_keys);
        let mut items: Vec<(usize, u64)> = Vec::new();
        let np: usize = self.len();
        let mut i: usize = 0;
        while i < np
            invariant
                i <= np,
                np == self@.len(),
                items@.len() == i,
                forall|j: int| 0 <= j < i ==> items@[j] == (j as usize, self@[j]),
            decreases np - i,
        {
            items.push((i, self[i]));
            i = i + 1;
        }
        let mut pairs: Vec<(u64, (usize, u64))> = Vec::new();
        let n: usize = next.len();
        let mut j: usize = 0;
        while j < n
            invariant
                j <= n,
                n == next@.len(),
                other_keys@.len() == next@.len(),
                pairs@ == indexed_keyed(other_keys@, next@).take(j as int),
            decreases n - j,
        {
            pairs.push((other_keys[j], (j, next[j])));
            proof {
                assert(pairs@ =~= indexed_keyed(other_keys@, next@).take(j + 1));
            }
            j = j + 1;
        }
        let r = IterImdMapped { prev, items, next: pairs, cursor: 0 };
        proof {
            assert(indexed_keyed(other_keys@, next@).take(n as int) =~= indexed_keyed(
                other_keys@,
                next@,
            ));
            crate::model::lemma_vec_len_bound(&r.items);
            crate::model::lemma_build_store_entries_from(key_index_pairs(self_keys@));
            assert(key_index_pairs(self_keys@).map_values(lookup_fn(r.items@)) =~= indexed_keyed(
                self_keys@,
                self@,
            ));
            lemma_build_store_map_values(key_index_pairs(self_keys@), lookup_fn(r.items@));
            assert(r.rem_next() =~= indexed_keyed(other_keys@, next@));
            assert(r.remaining_outputs() == diff_spec(
                indexed_keyed(self_keys@, self@),
                indexed_keyed(other_keys@, next@),
            ));
        }
        r
    }
}

} // verus!
