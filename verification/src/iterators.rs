//! The residual stores and the diff iterator cores.
//!
//! A residual store holds the not-yet-matched elements of the "previous"
//! sequence. It starts in an active phase, an order-preserving hash
//! container with constant-time removal by key, and on the first drain
//! request converts, once and irreversibly, into a forward cursor over its
//! remaining entries in their original relative order.

use vstd::prelude::*;

use crate::ListImd;
use crate::model::{
    diff_outputs, find_elem, find_key, lemma_find_elem_props, lemma_find_key_map_values,
    lemma_find_key_props, lemma_find_key_self_keyed, lookup_fn, self_keyed,
};
use crate::ordmap::{
    om_drain_values, om_entries, om_new, om_insert, om_remove, os_drain, os_elems, os_insert,
    os_new, os_take,
};

verus! {

/// Residual store over self-keyed elements: an order-preserving set while
/// matching is possible, a forward cursor over the leftovers afterwards.
pub struct SetOrIter {
    pub set: ordermap::OrderSet<u64>,
    pub draining: bool,
    pub drained: Vec<u64>,
    pub cursor: usize,
}

impl SetOrIter {
    pub open spec fn wf(self) -> bool {
        self.draining ==> self.cursor <= self.drained@.len()
    }

    /// Still in the lookup-capable phase.
    pub open spec fn is_active(self) -> bool {
        !self.draining
    }

    /// The elements still held, active phase.
    pub open spec fn elems(self) -> Seq<u64> {
        os_elems(self.set)
    }

    /// The elements still to be yielded, draining phase.
    pub open spec fn rest(self) -> Seq<u64> {
        self.drained@.skip(self.cursor as int)
    }

    /// The elements still held, in the order they will leave, in either phase.
    pub open spec fn remaining(self) -> Seq<u64> {
        if self.is_active() {
            self.elems()
        } else {
            self.rest()
        }
    }

    /// A fresh active store holding the first-occurrence deduplication of
    /// `elems`, in first-insertion order.
    pub fn from_elems(elems: &Vec<u64>) -> (s: Self)
        ensures
            s.wf(),
            s.is_active(),
            s.elems() == crate::model::build_set(elems@),
    {
        let mut set = os_new();
        let n: usize = elems.len();
        let mut i: usize = 0;
        while i < n
            invariant
                i <= n,
                n == elems@.len(),
                os_elems(set) == crate::model::build_set(elems@.take(i as int)),
            decreases n - i,
        {
            proof {
                assert(elems@.take(i + 1).drop_last() =~= elems@.take(i as int));
            }
            os_insert(&mut set, elems[i]);
            i = i + 1;
        }
        proof {
            assert(elems@.take(n as int) =~= elems@);
        }
        SetOrIter { set, draining: false, drained: Vec::new(), cursor: 0 }
    }

    /// In the active phase, remove and return the element equal to `key`, if
    /// present; in the draining phase, always absent.
    pub fn remove(&mut self, key: u64) -> (r: Option<u64>)
        requires
            old(self).wf(),
        ensures
            final(self).wf(),
            final(self).is_active() == old(self).is_active(),
            !old(self).is_active() ==> r is None && final(self).rest() == old(self).rest(),
            old(self).is_active() ==> ({
                let s = old(self).elems();
                let i = find_elem(s, key);
                if i >= 0 {
                    r == Some(s[i]) && final(self).elems() == s.remove(i)
                } else {
                    r is None && final(self).elems() == s
                }
            }),
    {
        if self.draining {
            None
        } else {
            os_take(&mut self.set, key)
        }
    }

    /// Pull the next leftover element. The first call in the active phase
    /// converts the store, once and for all, into a forward cursor over its
    /// remaining elements in their original relative order.
    pub fn next(&mut self) -> (r: Option<u64>)
        requires
            old(self).wf(),
        ensures
            final(self).wf(),
            !final(self).is_active(),
            old(self).remaining().len() == 0 ==> r is None && final(self).rest()
                == old(self).remaining(),
            old(self).remaining().len() > 0 ==> r == Some(old(self).remaining()[0])
                && final(self).rest() == old(self).remaining().skip(1),
    {
        if !self.draining {
            self.drained = os_drain(&mut self.set);
            self.draining = true;
            self.cursor = 0;
        }
        proof {
            assert(self.drained@.skip(self.cursor as int) =~= old(self).remaining());
        }
        if self.cursor < self.drained.len() {
            let v: u64 = self.drained[self.cursor];
            self.cursor = self.cursor + 1;
            proof {
                assert(self.drained@.skip(self.cursor as int) =~= old(self).remaining().skip(1));
            }
            Some(v)
        } else {
            None
        }
    }
}

/// Residual store over keyed entries: an order-preserving key-to-position
/// map while matching is possible, a forward cursor over the leftover
/// positions afterwards. The positions index the original "previous"
/// sequence, whose payloads the surrounding iterator keeps.
pub struct MapOrIter {
    pub map: ordermap::OrderMap<u64, usize>,
    pub draining: bool,
    pub drained: Vec<usize>,
    pub cursor: usize,
}

impl MapOrIter {
    pub open spec fn wf(self) -> bool {
        self.draining ==> self.cursor <= self.drained@.len()
    }

    /// Still in the lookup-capable phase.
    pub open spec fn is_active(self) -> bool {
        !self.draining
    }

    /// The `(key, position)` entries still held, active phase.
    pub open spec fn entries(self) -> Seq<(u64, usize)> {
        om_entries(self.map)
    }

    /// The positions still to be yielded, draining phase.
    pub open spec fn rest(self) -> Seq<usize> {
        self.drained@.skip(self.cursor as int)
    }

    /// The positions still held, in the order they will leave, in either
    /// phase.
    pub open spec fn remaining(self) -> Seq<usize> {
        if self.is_active() {
            self.entries().map_values(|e: (u64, usize)| e.1)
        } else {
            self.rest()
        }
    }

    /// A fresh active store mapping each key of `keys` to its position, a
    /// later duplicate key replacing the position stored for an earlier one.
    pub fn from_keys(keys: &Vec<u64>) -> (s: Self)
        ensures
            s.wf(),
            s.is_active(),
            s.entries() == crate::model::build_store(crate::model::key_index_pairs(keys@)),
    {
        let mut map = om_new();
        let n: usize = keys.len();
        let mut i: usize = 0;
        while i < n
            invariant
                i <= n,
                n == keys@.len(),
                om_entries(map) == crate::model::build_store(
                    crate::model::key_index_pairs(keys@).take(i as int),
                ),
            decreases n - i,
        {
            proof {
                assert(crate::model::key_index_pairs(keys@).take(i + 1).drop_last()
                    =~= crate::model::key_index_pairs(keys@).take(i as int));
            }
            om_insert(&mut map, keys[i], i);
            i = i + 1;
        }
        proof {
            assert(crate::model::key_index_pairs(keys@).take(n as int)
                =~= crate::model::key_index_pairs(keys@));
        }
        MapOrIter { map, draining: false, drained: Vec::new(), cursor: 0 }
    }

    /// In the active phase, remove the entry with the given key, if present,
    /// and return its position; in the draining phase, always absent.
    pub fn remove(&mut self, key: u64) -> (r: Option<usize>)
        requires
            old(self).wf(),
        ensures
            final(self).wf(),
            final(self).is_active() == old(self).is_active(),
            !old(self).is_active() ==> r is None && final(self).rest() == old(self).rest(),
            old(self).is_active() ==> ({
                let s = old(self).entries();
                let i = find_key(s, key);
                if i >= 0 {
                    r == Some(s[i].1) && final(self).entries() == s.remove(i)
                } else {
                    r is None && final(self).entries() == s
                }
            }),
    {
        if self.draining {
            None
        } else {
            om_remove(&mut self.map, key)
        }
    }

    /// Pull the next leftover position. The first call in the active phase
    /// converts the store, once and for all, into a forward cursor over its
    /// remaining entries' positions in their original relative order.
    pub fn next(&mut self) -> (r: Option<usize>)
        requires
            old(self).wf(),
        ensures
            final(self).wf(),
            !final(self).is_active(),
            old(self).remaining().len() == 0 ==> r is None && final(self).rest()
                == old(self).remaining(),
            old(self).remaining().len() > 0 ==> r == Some(old(self).remaining()[0])
                && final(self).rest() == old(self).remaining().skip(1),
    {
        if !self.draining {
            self.drained = om_drain_values(&mut self.map);
            self.draining = true;
            self.cursor = 0;
        }
        proof {
            assert(self.drained@.skip(self.cursor as int) =~= old(self).remaining());
        }
        if self.cursor < self.drained.len() {
            let v: usize = self.drained[self.cursor];
            self.cursor = self.cursor + 1;
            proof {
                assert(self.drained@.skip(self.cursor as int) =~= old(self).remaining().skip(1));
            }
            Some(v)
        } else {
            None
        }
    }
}

/// The diff iterator over self-keyed elements: a residual store built from
/// the "previous" sequence, and a cursor over the "next" sequence.
pub struct IterImd {
    pub prev: SetOrIter,
    pub next: Vec<u64>,
    pub cursor: usize,
}

impl IterImd {
    pub open spec fn wf(self) -> bool {
        self.prev.wf() && self.cursor <= self.next@.len()
    }

    /// The keyed "next" entries not yet consumed.
    pub open spec fn rem_next(self) -> Seq<(u64, u64)> {
        self_keyed(self.next@.skip(self.cursor as int))
    }

    /// Everything the iterator will still yield, in order.
    pub open spec fn remaining_outputs(self) -> Seq<ListImd<u64, u64>> {
        if self.prev.is_active() {
            diff_outputs(self_keyed(self.prev.elems()), self.rem_next())
        } else {
            self.rem_next().map_values(|e: (u64, u64)| ListImd::Insert(e.1))
                + self.prev.rest().map_values(|v: u64| ListImd::Delete(v))
        }
    }

    /// Pull one result: an insertion or modification for the next "next"
    /// element while one is left, then the leftover deletions, then nothing.
    pub fn next(&mut self) -> (r: Option<ListImd<u64, u64>>)
        requires
            old(self).wf(),
        ensures
            final(self).wf(),
            old(self).remaining_outputs().len() == 0 ==> r is None
                && final(self).remaining_outputs() == old(self).remaining_outputs(),
            old(self).remaining_outputs().len() > 0 ==> r == Some(
                old(self).remaining_outputs()[0],
            ) && final(self).remaining_outputs() == old(self).remaining_outputs().skip(1),
    {
        if self.cursor < self.next.len() {
            let item: u64 = self.next[self.cursor];
            self.cursor = self.cursor + 1;
            proof {
                assert(old(self).rem_next().len() > 0);
                assert(old(self).rem_next()[0] == (item, item));
                assert(self.next@.skip(self.cursor as int) =~= self.next@.skip(
                    self.cursor - 1,
                ).skip(1));
                assert(self_keyed(self.next@.skip(self.cursor - 1).skip(1)) =~= old(
                    self,
                ).rem_next().skip(1));
                if old(self).prev.is_active() {
                    lemma_find_key_self_keyed(old(self).prev.elems(), item);
                    lemma_find_elem_props(old(self).prev.elems(), item);
                }
            }
            match self.prev.remove(item) {
                Some(k) => {
                    proof {
                        let s = old(self).prev.elems();
                        let i = find_elem(s, item);
                        assert(self_keyed(s.remove(i)) =~= self_keyed(s).remove(i));
                        assert(old(self).remaining_outputs() == seq![
                            ListImd::Modify(k, item),
                        ] + self.remaining_outputs());
                        assert((seq![ListImd::Modify(k, item)] + self.remaining_outputs()).skip(1)
                            =~= self.remaining_outputs());
                    }
                    Some(ListImd::Modify(k, item))
                },
                None => {
                    proof {
                        if old(self).prev.is_active() {
                            assert(old(self).remaining_outputs() == seq![
                                ListImd::Insert(item),
                            ] + self.remaining_outputs());
                            assert((seq![ListImd::Insert(item)]
                                + self.remaining_outputs()).skip(1)
                                =~= self.remaining_outputs());
                        } else {
                            assert(old(self).remaining_outputs()[0] == ListImd::<u64, u64>::Insert(
                                item,
                            ));
                            assert(old(self).remaining_outputs().skip(1)
                                =~= self.remaining_outputs());
                        }
                    }
                    Some(ListImd::Insert(item))
                },
            }
        } else {
            proof {
                assert(old(self).rem_next() =~= Seq::<(u64, u64)>::empty());
            }
            match self.prev.next() {
                Some(v) => {
                    proof {
                        let s = old(self).prev.remaining();
                        if old(self).prev.is_active() {
                            assert(old(self).remaining_outputs() =~= self_keyed(s).map_values(
                                |e: (u64, u64)| ListImd::Delete(e.1),
                            ));
                        }
                        assert(old(self).remaining_outputs() =~= s.map_values(
                            |x: u64| ListImd::Delete(x),
                        ));
                        assert(self.rem_next() =~= Seq::<(u64, u64)>::empty());
                        assert(self.remaining_outputs() =~= s.skip(1).map_values(
                            |x: u64| ListImd::Delete(x),
                        ));
                        assert(self.remaining_outputs() =~= old(self).remaining_outputs().skip(
                            1,
                        ));
                    }
                    Some(ListImd::Delete(v))
                },
                None => {
                    proof {
                        let s = old(self).prev.remaining();
                        if old(self).prev.is_active() {
                            assert(old(self).remaining_outputs() =~= self_keyed(s).map_values(
                                |e: (u64, u64)| ListImd::Delete(e.1),
                            ));
                        }
                        assert(old(self).remaining_outputs().len() == 0);
                        assert(self.rem_next() =~= Seq::<(u64, u64)>::empty());
                        assert(self.remaining_outputs() =~= old(self).remaining_outputs());
                    }
                    None
                },
            }
        }
    }
}

/// The diff iterator over keyed entries: a residual key-to-position store
/// built from the "previous" sequence, the previous payloads themselves, and
/// a cursor over the pre-keyed "next" sequence.
pub struct IterImdMapped<A, B> {
    pub prev: MapOrIter,
    pub items: Vec<A>,
    pub next: Vec<(u64, B)>,
    pub cursor: usize,
}

impl<A: Copy, B: Copy> IterImdMapped<A, B> {
    pub open spec fn wf(self) -> bool {
        &&& self.prev.wf()
        &&& self.cursor <= self.next@.len()
        &&& self.prev.is_active() ==> forall|i: int|
            0 <= i < self.prev.entries().len() ==> (#[trigger] self.prev.entries()[i]).1
                < self.items@.len()
        &&& !self.prev.is_active() ==> forall|i: int|
            0 <= i < self.prev.rest().len() ==> (#[trigger] self.prev.rest()[i])
                < self.items@.len()
    }

    /// The store entries still held, with their positions replaced by the
    /// previous payloads they stand for.
    pub open spec fn entries_view(self) -> Seq<(u64, A)> {
        self.prev.entries().map_values(lookup_fn(self.items@))
    }

    /// The leftover payloads still to be yielded, draining phase.
    pub open spec fn rest_view(self) -> Seq<A> {
        self.prev.rest().map_values(|v: usize| self.items@[v as int])
    }

    /// The keyed "next" entries not yet consumed.
    pub open spec fn rem_next(self) -> Seq<(u64, B)> {
        self.next@.skip(self.cursor as int)
    }

    /// Everything the iterator will still yield, in order.
    pub open spec fn remaining_outputs(self) -> Seq<ListImd<A, B>> {
        if self.prev.is_active() {
            diff_outputs(self.entries_view(), self.rem_next())
        } else {
            self.rem_next().map_values(|e: (u64, B)| ListImd::Insert(e.1))
                + self.rest_view().map_values(|a: A| ListImd::Delete(a))
        }
    }

    /// Pull one result: an insertion or modification for the next "next"
    /// entry while one is left, then the leftover deletions, then nothing.
    pub fn next(&mut self) -> (r: Option<ListImd<A, B>>)
        requires
            old(self).wf(),
        ensures
            final(self).wf(),
            old(self).remaining_outputs().len() == 0 ==> r is None
                && final(self).remaining_outputs() == old(self).remaining_outputs(),
            old(self).remaining_outputs().len() > 0 ==> r == Some(
                old(self).remaining_outputs()[0],
            ) && final(self).remaining_outputs() == old(self).remaining_outputs().skip(1),
    {
        if self.cursor < self.next.len() {
            let pair: (u64, B) = self.next[self.cursor];
            self.cursor = self.cursor + 1;
            proof {
                assert(old(self).rem_next().len() > 0);
                assert(old(self).rem_next()[0] == pair);
                assert(self.next@.skip(self.cursor as int) =~= old(self).rem_next().skip(1));
                if old(self).prev.is_active() {
                    lemma_find_key_map_values(
                        old(self).prev.entries(),
                        lookup_fn(old(self).items@),
                        pair.0,
                    );
                    lemma_find_key_props(old(self).prev.entries(), pair.0);
                }
            }
            match self.prev.remove(pair.0) {
                Some(idx) => {
                    proof {
                        let es = old(self).prev.entries();
                        let i = find_key(es, pair.0);
                        assert(idx == es[i].1 && idx < self.items@.len());
                        assert(old(self).entries_view()[i]
                            == (pair.0, self.items@[idx as int]));
                        assert(self.entries_view() =~= old(self).entries_view().remove(i));
                        assert(old(self).remaining_outputs() == seq![
                            ListImd::Modify(self.items@[idx as int], pair.1),
                        ] + self.remaining_outputs());
                        assert(old(self).remaining_outputs().skip(1)
                            =~= self.remaining_outputs());
                    }
                    let a: A = self.items[idx];
                    Some(ListImd::Modify(a, pair.1))
                },
                None => {
                    proof {
                        if old(self).prev.is_active() {
                            assert(old(self).remaining_outputs() == seq![
                                ListImd::Insert(pair.1),
                            ] + self.remaining_outputs());
                            assert(old(self).remaining_outputs().skip(1)
                                =~= self.remaining_outputs());
                        } else {
                            assert(old(self).remaining_outputs()[0] == ListImd::<A, B>::Insert(
                                pair.1,
                            ));
                            assert(old(self).remaining_outputs().skip(1)
                                =~= self.remaining_outputs());
                        }
                    }
                    Some(ListImd::Insert(pair.1))
                },
            }
        } else {
            proof {
                assert(old(self).rem_next() =~= Seq::<(u64, B)>::empty());
                if old(self).prev.is_active() {
                    assert(old(self).remaining_outputs() =~= old(self).prev.remaining()
                        .map_values(|v: usize| ListImd::<A, B>::Delete(
                            old(self).items@[v as int],
                        )));
                } else {
                    assert(old(self).remaining_outputs() =~= old(self).prev.remaining()
                        .map_values(|v: usize| ListImd::<A, B>::Delete(
                            old(self).items@[v as int],
                        )));
                }
            }
            match self.prev.next() {
                Some(idx) => {
                    proof {
                        let s = old(self).prev.remaining();
                        assert(idx == s[0] && idx < self.items@.len());
                        assert(self.rem_next() =~= Seq::<(u64, B)>::empty());
                        assert(self.remaining_outputs() =~= s.skip(1).map_values(
                            |v: usize| ListImd::<A, B>::Delete(old(self).items@[v as int]),
                        ));
                        assert(self.remaining_outputs() =~= old(self).remaining_outputs().skip(
                            1,
                        ));
                    }
                    let a: A = self.items[idx];
                    Some(ListImd::Delete(a))
                },
                None => {
                    proof {
                        assert(old(self).remaining_outputs().len() == 0);
                        assert(self.rem_next() =~= Seq::<(u64, B)>::empty());
                        assert(self.remaining_outputs() =~= old(self).remaining_outputs());
                    }
                    None
                },
            }
        }
    }
}

} // verus!
