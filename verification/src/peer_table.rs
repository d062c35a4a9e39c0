//! A table of peers: for each address, the reports last received from it.

use dashmap::DashMap;
use rand::seq::IteratorRandom;
use std::collections::hash_map::RandomState;
use std::collections::VecDeque;
use vstd::prelude::*;
use crate::service_info::{ServiceType, Timestamp};

verus! {

#[verifier::external_type_specification]
#[verifier::external_body]
#[verifier::reject_recursive_types(K)]
#[verifier::reject_recursive_types(V)]
#[verifier::reject_recursive_types(S)]
pub struct ExDashMap<K, V, S>(DashMap<K, V, S>);

/// What a table holds: for each address, the reports kept for it, oldest
/// first.
pub uninterp spec fn table_states(
    table: DashMap<String, VecDeque<ServiceType>, RandomState>,
) -> Map<Seq<char>, Seq<ServiceType>>;

/// The contents of a table without addresses.
pub open spec fn no_peers() -> Map<Seq<char>, Seq<ServiceType>> {
    Map::empty()
}

/// When the peer with these reports last reported, if it ever did.
pub open spec fn last_timestamp(states: Seq<ServiceType>) -> Option<Timestamp> {
    if states.len() == 0 {
        None
    } else {
        Some(states.last().spec_timestamp())
    }
}

/// Calls `DashMap::new`: the new table holds no address.
#[verifier::external_body]
pub(crate) fn table_new() -> (r: DashMap<String, VecDeque<ServiceType>, RandomState>)
    ensures
        table_states(r) == no_peers(),
{
    DashMap::new()
}

/// Calls `DashMap::remove`: an address that the table holds leaves it and
/// its reports are handed out; a table without the address stays as it is.
#[verifier::external_body]
pub(crate) fn table_take(
    table: &mut DashMap<String, VecDeque<ServiceType>, RandomState>,
    address: &String,
) -> (states: Option<VecDeque<ServiceType>>)
    ensures
        match states {
            Some(s) => {
                &&& table_states(*old(table)).contains_key(address@)
                &&& s@ == table_states(*old(table))[address@]
                &&& table_states(*final(table)) == table_states(*old(table)).remove(address@)
            },
            None => {
                &&& !table_states(*old(table)).contains_key(address@)
                &&& table_states(*final(table)) == table_states(*old(table))
            },
        },
{
    table.remove(address).map(|(_, states)| states)
}

/// Calls `DashMap::insert`: afterwards the table holds `states` for
/// `address`, in place of what it held for it before, and is otherwise as it
/// was.
#[verifier::external_body]
pub(crate) fn table_put(
    table: &mut DashMap<String, VecDeque<ServiceType>, RandomState>,
    address: String,
    states: VecDeque<ServiceType>,
)
    ensures
        table_states(*final(table)) == table_states(*old(table)).insert(address@, states@),
{
    table.insert(address, states);
}

/// Calls `DashMap::get`: the number of reports kept for `address`, if the
/// table holds the address.
#[verifier::external_body]
pub(crate) fn table_count(
    table: &DashMap<String, VecDeque<ServiceType>, RandomState>,
    address: &String,
) -> (r: Option<usize>)
    ensures
        r == if table_states(*table).contains_key(address@) {
            Some(table_states(*table)[address@].len() as usize)
        } else {
            None
        },
{
    table.get(address).map(|states| states.len())
}

/// Calls `DashMap::iter`: each address of the table comes out exactly once,
/// in no particular order.
#[verifier::external_body]
pub(crate) fn table_addresses(table: &DashMap<String, VecDeque<ServiceType>, RandomState>) -> (r:
    Vec<String>)
    ensures
        forall|i: int| 0 <= i < r@.len() ==> table_states(*table).contains_key((#[trigger] r@[i])@),
        forall|address: Seq<char>|
            table_states(*table).contains_key(address) ==> exists|i: int|
                0 <= i < r@.len() && (#[trigger] r@[i])@ == address,
        forall|i: int, j: int| 0 <= i < j < r@.len() ==> (#[trigger] r@[i])@ != (#[trigger] r@[j])@,
{
    table.iter().map(|kv| kv.key().clone()).collect()
}

/// Calls `IteratorRandom::choose` on `DashMap::iter`, with the thread's
/// random number generator: one of the table's addresses, picked at random;
/// none exactly if the table holds none.
#[verifier::external_body]
pub(crate) fn table_choose(table: &DashMap<String, VecDeque<ServiceType>, RandomState>) -> (r:
    Option<String>)
    ensures
        match r {
            Some(address) => table_states(*table).contains_key(address@),
            None => forall|address: Seq<char>| !table_states(*table).contains_key(address),
        },
{
    table.iter().choose(&mut rand::thread_rng()).map(|kv| kv.key().clone())
}

} // verus!
