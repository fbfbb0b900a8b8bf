//! Trusted interface to `ordermap`'s insertion-order-preserving containers.
//!
//! The containers themselves are opaque here. What each one holds is named by
//! an uninterpreted content function ([`om_entries`], [`os_elems`]) giving
//! the entries in their insertion order, and every method the library calls
//! goes through a small wrapper whose contract states, over that name, what
//! `ordermap`'s documentation and source show of the call.

use vstd::prelude::*;

use crate::model::{find_elem, find_key};

verus! {

#[verifier::external_type_specification]
#[verifier::external_body]
#[verifier::reject_recursive_types(K)]
#[verifier::reject_recursive_types(V)]
#[verifier::reject_recursive_types(S)]
pub struct ExOrderMap<K, V, S>(ordermap::OrderMap<K, V, S>);

#[verifier::external_type_specification]
#[verifier::external_body]
#[verifier::reject_recursive_types(T)]
#[verifier::reject_recursive_types(S)]
pub struct ExOrderSet<T, S>(ordermap::OrderSet<T, S>);

/// The entries a map holds, as `(key, value)` pairs in the map's order.
pub uninterp spec fn om_entries(
    m: ordermap::OrderMap<u64, usize, std::collections::hash_map::RandomState>,
) -> Seq<(u64, usize)>;

/// The elements a set holds, in the set's order.
pub uninterp spec fn os_elems(
    s: ordermap::OrderSet<u64, std::collections::hash_map::RandomState>,
) -> Seq<u64>;

/// Relies on `OrderMap::new`: the new map is empty.
#[verifier::external_body]
pub(crate) fn om_new() -> (m: ordermap::OrderMap<u64, usize>)
    ensures
        om_entries(m) == Seq::<(u64, usize)>::empty(),
{
    ordermap::OrderMap::new()
}

/// Relies on `OrderMap::insert`: an existing key keeps its place and gets the
/// new value; a fresh key is appended last.
#[verifier::external_body]
pub(crate) fn om_insert(m: &mut ordermap::OrderMap<u64, usize>, k: u64, v: usize)
    ensures
        ({
            let s = om_entries(*old(m));
            let i = find_key(s, k);
            om_entries(*final(m)) == if i >= 0 {
                s.update(i, (k, v))
            } else {
                s.push((k, v))
            }
        }),
{
    m.insert(k, v);
}

/// Relies on `OrderMap::remove`: removes the entry with the given key, if
/// any, preserving the order of the remaining entries, and returns its value.
#[verifier::external_body]
pub(crate) fn om_remove(m: &mut ordermap::OrderMap<u64, usize>, k: u64) -> (r: Option<usize>)
    ensures
        ({
            let s = om_entries(*old(m));
            let i = find_key(s, k);
            if i >= 0 {
                r == Some(s[i].1) && om_entries(*final(m)) == s.remove(i)
            } else {
                r is None && om_entries(*final(m)) == s
            }
        }),
{
    m.remove(&k)
}

/// Relies on `OrderMap::drain`: empties the map, yielding its entries in
/// order; their values are collected.
#[verifier::external_body]
pub(crate) fn om_drain_values(m: &mut ordermap::OrderMap<u64, usize>) -> (r: Vec<usize>)
    ensures
        r@ == om_entries(*old(m)).map_values(|e: (u64, usize)| e.1),
        om_entries(*final(m)) == Seq::<(u64, usize)>::empty(),
{
    m.drain(..).map(|e: (u64, usize)| e.1).collect()
}

/// Relies on `OrderSet::new`: the new set is empty.
#[verifier::external_body]
pub(crate) fn os_new() -> (s: ordermap::OrderSet<u64>)
    ensures
        os_elems(s) == Seq::<u64>::empty(),
{
    ordermap::OrderSet::new()
}

/// Relies on `OrderSet::insert`: an element already present leaves the set
/// unchanged; a fresh element is appended last.
#[verifier::external_body]
pub(crate) fn os_insert(s: &mut ordermap::OrderSet<u64>, k: u64)
    ensures
        ({
            let e = os_elems(*old(s));
            os_elems(*final(s)) == if find_elem(e, k) >= 0 {
                e
            } else {
                e.push(k)
            }
        }),
{
    s.insert(k);
}

/// Relies on `OrderSet::take`: removes the element equal to the given one, if
/// present, preserving the order of the rest, and returns it.
#[verifier::external_body]
pub(crate) fn os_take(s: &mut ordermap::OrderSet<u64>, k: u64) -> (r: Option<u64>)
    ensures
        ({
            let e = os_elems(*old(s));
            let i = find_elem(e, k);
            if i >= 0 {
                r == Some(e[i]) && os_elems(*final(s)) == e.remove(i)
            } else {
                r is None && os_elems(*final(s)) == e
            }
        }),
{
    s.take(&k)
}

/// Relies on `OrderSet::drain`: empties the set, yielding its elements in
/// order.
#[verifier::external_body]
pub(crate) fn os_drain(s: &mut ordermap::OrderSet<u64>) -> (r: Vec<u64>)
    ensures
        r@ == os_elems(*old(s)),
        os_elems(*final(s)) == Seq::<u64>::empty(),
{
    s.drain(..).collect()
}

} // verus!
