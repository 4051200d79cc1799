//! The locker's table of clients, kept in a concurrent map keyed by lock
//! identity, and the trusted statements about the few map operations that the
//! locker uses.
use dashmap::DashMap;
use vstd::prelude::*;

use crate::locker::LockMode;

verus! {

/// The concurrent map type of the `dashmap` crate.
#[verifier::external_type_specification]
#[verifier::external_body]
#[verifier::reject_recursive_types(K)]
#[verifier::reject_recursive_types(V)]
#[verifier::reject_recursive_types(S)]
pub struct ExDashMap<K, V, S>(DashMap<K, V, S>);

/// A table of clients: the lock each client identity holds.
pub type ClientTable = DashMap<u32, LockMode>;

/// The entries of a client table: which lock each client currently holds.
pub uninterp spec fn holders_of(m: ClientTable) -> Map<u32, LockMode>;

/// Calls `DashMap::new`, which builds a map with no entries.
#[verifier::external_body]
pub(crate) fn table_new() -> (m: ClientTable)
    ensures
        holders_of(m).dom().is_empty(),
{
    DashMap::new()
}

/// Calls `DashMap::get` and copies the value out of the guard it returns:
/// the value stored under `id`, or `None` when there is no entry for `id`.
#[verifier::external_body]
pub(crate) fn table_get(m: &ClientTable, id: u32) -> (r: Option<LockMode>)
    ensures
        r == (if holders_of(*m).contains_key(id) {
            Some(holders_of(*m)[id])
        } else {
            None
        }),
{
    m.get(&id).as_deref().copied()
}

/// Calls `DashMap::insert`, which stores `mode` under `id`, replacing any
/// earlier entry, and returns the value it replaced.
#[verifier::external_body]
pub(crate) fn table_insert(m: &mut ClientTable, id: u32, mode: LockMode) -> (r: Option<
    LockMode,
>)
    ensures
        holders_of(*final(m)) == holders_of(*old(m)).insert(id, mode),
        r == (if holders_of(*old(m)).contains_key(id) {
            Some(holders_of(*old(m))[id])
        } else {
            None
        }),
{
    m.insert(id, mode)
}

/// Calls `DashMap::remove`, which deletes the entry for `id` and returns it,
/// or returns `None` and leaves the map as it was when there is none.
#[verifier::external_body]
pub(crate) fn table_remove(m: &mut ClientTable, id: u32) -> (r: Option<(u32, LockMode)>)
    ensures
        holders_of(*final(m)) == holders_of(*old(m)).remove(id),
        r == (if holders_of(*old(m)).contains_key(id) {
            Some((id, holders_of(*old(m))[id]))
        } else {
            None
        }),
{
    m.remove(&id)
}

/// Calls `DashMap::is_empty`, which tells whether the map has no entries.
#[verifier::external_body]
pub(crate) fn table_is_empty(m: &ClientTable) -> (r: bool)
    ensures
        r == (holders_of(*m).dom().is_empty()),
{
    m.is_empty()
}

} // verus!

verus! {

/// Calls `DashMap::len`, which sums the entry counts of all shards: the
/// number of entries in the map.
#[verifier::external_body]
pub(crate) fn table_len(m: &ClientTable) -> (r: usize)
    ensures
        r == holders_of(*m).len(),
{
    m.len()
}

} // verus!
