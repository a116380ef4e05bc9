//! The NAT table: which destination each overlay client meant to reach
//! when it was redirected.

use std::collections::HashMap;
use vstd::prelude::*;

verus! {

broadcast use vstd::std_specs::hash::group_hash_axioms;

/// An IPv4 socket address: the address as a 32-bit number, most
/// significant octet first, and the port.
#[derive(Clone, Copy, Debug, PartialEq, Eq, Structural)]
pub struct Endpoint {
    pub ip: u32,
    pub port: u16,
}

/// The number under which the table files an address: the address in the
/// upper bits, the port in the lowest sixteen.
pub open spec fn key_of(e: Endpoint) -> u64 {
    (e.ip * 0x1_0000 + e.port) as u64
}

/// Different addresses are filed under different numbers.
pub proof fn lemma_key_of_injective(a: Endpoint, b: Endpoint)
    requires
        key_of(a) == key_of(b),
    ensures
        a == b,
{
}

/// The NAT table: a map from the address of a client in the overlay to the
/// destination that the client meant to reach. An entry stays until its
/// key is entered again.
pub struct NatTable {
    map: HashMap<u64, Endpoint>,
}

impl View for NatTable {
    type V = Map<Endpoint, Endpoint>;

    closed spec fn view(&self) -> Map<Endpoint, Endpoint> {
        Map::new(
            |k: Endpoint| self.map@.contains_key(key_of(k)),
            |k: Endpoint| self.map@[key_of(k)],
        )
    }
}

impl NatTable {
    /// An empty table.
    pub fn new() -> (table: NatTable)
        ensures
            table@ == Map::<Endpoint, Endpoint>::empty(),
    {
        let table = NatTable { map: HashMap::with_capacity(16) };
        assert(table@ =~= Map::<Endpoint, Endpoint>::empty());
        table
    }

    /// The number under which `e` is filed.
    fn key(e: Endpoint) -> (k: u64)
        ensures
            k == key_of(e),
    {
        e.ip as u64 * 0x1_0000 + e.port as u64
    }

    /// Enters `target` for `client`, in place of what was entered for it
    /// before.
    pub fn insert(&mut self, client: Endpoint, target: Endpoint)
        ensures
            final(self)@ == old(self)@.insert(client, target),
    {
        self.map.insert(Self::key(client), target);
        assert forall|k: Endpoint| k != client implies key_of(k) != key_of(client) by {
            if key_of(k) == key_of(client) {
                lemma_key_of_injective(k, client);
            }
        }
        assert(self@ =~= old(self)@.insert(client, target));
    }

    /// What is entered for `client`, if anything.
    pub fn get(&self, client: Endpoint) -> (r: Option<Endpoint>)
        ensures
            r == if self@.contains_key(client) {
                Some(self@[client])
            } else {
                None
            },
    {
        match self.map.get(&Self::key(client)) {
            Some(target) => Some(*target),
            None => None,
        }
    }
}

} // verus!
