//! The port allocator: which ports of a range are leased, and to whom.
//!
//! A lease pairs a port with the transfer that listens on it. The allocator
//! is the only record of occupancy: a port is handed out at most once until
//! it is released, and always the lowest one that is free.

use std::collections::HashMap;
use vstd::prelude::*;
use crate::endpoint::PortRange;

verus! {

broadcast use vstd::std_specs::hash::group_hash_axioms;

/// The identity of a transfer: a token that the manager hands out once and
/// never again.
#[derive(Clone, Copy, Debug, PartialEq, Eq, Structural)]
pub struct TransferId(pub u64);

/// Why no port could be leased.
#[derive(Clone, Copy, Debug, PartialEq, Eq, Structural)]
pub enum LeaseError {
    /// Every port of the range is leased.
    ExhaustedRange,
}

/// `port` is free, lies in `range`, and every lower port of `range` is leased.
pub open spec fn is_lowest_free(
    leases: Map<u16, TransferId>,
    range: PortRange,
    port: u16,
) -> bool {
    &&& range.contains(port)
    &&& !leases.contains_key(port)
    &&& forall|q: u16| range.low() <= q < port ==> leases.contains_key(q)
}

/// Every port of `range` is leased.
pub open spec fn exhausted(leases: Map<u16, TransferId>, range: PortRange) -> bool {
    forall|q: u16| range.contains(q) ==> leases.contains_key(q)
}

/// The port that a lease hands out: the lowest free port of `range`, or none
/// where the range is exhausted.
pub open spec fn next_port(leases: Map<u16, TransferId>, range: PortRange) -> Option<u16> {
    if exhausted(leases, range) {
        None
    } else {
        Some(choose|port: u16| is_lowest_free(leases, range, port))
    }
}

/// The lowest `count` ports of `range` are leased and the rest of it is free.
pub open spec fn filled_up_to(leases: Map<u16, TransferId>, range: PortRange, count: int) -> bool {
    &&& 0 <= count <= range.size()
    &&& forall|q: u16| range.contains(q) ==> (leases.contains_key(q) <==> q < range.low() + count)
}

pub struct PortAllocator {
    leases: HashMap<u16, TransferId>,
}

impl View for PortAllocator {
    type V = Map<u16, TransferId>;

    /// The leases in force: each leased port with the transfer that holds it.
    closed spec fn view(&self) -> Map<u16, TransferId> {
        self.leases@
    }
}

impl PortAllocator {
    /// An allocator with no lease.
    pub fn new() -> (allocator: PortAllocator)
        ensures
            allocator@ == Map::<u16, TransferId>::empty(),
    {
        PortAllocator { leases: HashMap::new() }
    }

    /// Leases the lowest free port of `range` to `holder`, or fails, changing
    /// nothing, when every port of the range is leased.
    pub fn lease(&mut self, range: &PortRange, holder: TransferId) -> (r: Result<u16, LeaseError>)
        ensures
            r is Err <==> exhausted(old(self)@, *range),
            r matches Ok(port) ==> is_lowest_free(old(self)@, *range, port) && final(self)@ == old(
                self,
            )@.insert(port, holder),
            r matches Err(e) ==> e == LeaseError::ExhaustedRange && final(self)@ == old(self)@,
            r.ok() == next_port(old(self)@, *range),
    {
        let last: u16 = range.last();
        let mut port: u16 = range.first();
        loop
            invariant
                range.low() <= port <= last,
                last == range.high(),
                *self == *old(self),
                forall|q: u16| range.low() <= q < port ==> self@.contains_key(q),
            decreases last - port,
        {
            if !self.leases.contains_key(&port) {
                assert(range.contains(port) && !self@.contains_key(port));
                proof {
                    lemma_lease_is_determined(self@, *range, port, port);
                    let chosen = choose|p: u16| is_lowest_free(self@, *range, p);
                    lemma_lease_is_determined(self@, *range, port, chosen);
                }
                self.leases.insert(port, holder);
                return Ok(port);
            }
            if port == last {
                return Err(LeaseError::ExhaustedRange);
            }
            port = port + 1;
        }
    }

    /// Frees `port`. A port that is not leased stays free: releasing it again,
    /// or releasing one that never was leased, changes nothing.
    pub fn release(&mut self, port: u16)
        ensures
            final(self)@ == old(self)@.remove(port),
    {
        self.leases.remove(&port);
    }

    /// Whether `port` is leased.
    pub fn is_leased(&self, port: u16) -> (b: bool)
        ensures
            b == self@.contains_key(port),
    {
        self.leases.contains_key(&port)
    }

    /// The transfer that holds `port`, if it is leased.
    pub fn holder(&self, port: u16) -> (h: Option<TransferId>)
        ensures
            h == (if self@.contains_key(port) {
                Some(self@[port])
            } else {
                None
            }),
    {
        match self.leases.get(&port) {
            Some(id) => Some(*id),
            None => None,
        }
    }

    /// How many ports are leased.
    pub fn leased(&self) -> (n: usize)
        ensures
            n == self@.len(),
    {
        self.leases.len()
    }
}

/// Two leases in a row never hand out the same port: the port that the first
/// lease took is not the one that the next lease finds.
pub proof fn lemma_lease_is_exclusive(
    leases: Map<u16, TransferId>,
    range: PortRange,
    first: u16,
    holder: TransferId,
    second: u16,
)
    requires
        is_lowest_free(leases, range, first),
        is_lowest_free(leases.insert(first, holder), range, second),
    ensures
        first != second,
        first < second,
{
}

/// What a lease finds is determined by the leases in force: no two ports are
/// both the lowest free one, and none is where the range is exhausted.
pub proof fn lemma_lease_is_determined(
    leases: Map<u16, TransferId>,
    range: PortRange,
    p: u16,
    q: u16,
)
    requires
        is_lowest_free(leases, range, p),
    ensures
        !exhausted(leases, range),
        is_lowest_free(leases, range, q) ==> p == q,
{
}

/// Leases taken one after the other, with no release between them, walk up the
/// range: when the lowest `count` ports are taken, the next lease gets the
/// port `count` above the lowest, and then the lowest `count + 1` are taken.
pub proof fn lemma_leases_fill_in_order(
    leases: Map<u16, TransferId>,
    range: PortRange,
    count: int,
    port: u16,
    holder: TransferId,
)
    requires
        filled_up_to(leases, range, count),
        is_lowest_free(leases, range, port),
    ensures
        count < range.size(),
        port == range.low() + count,
        filled_up_to(leases.insert(port, holder), range, count + 1),
{
    assert(range.contains(port));
    if port > range.low() + count {
        let q = (range.low() + count) as u16;
        assert(range.contains(q));
        assert(leases.contains_key(q));
    }
    let after = leases.insert(port, holder);
    assert forall|q: u16| range.contains(q) implies (after.contains_key(q) <==> q < range.low()
        + count + 1) by {
        assert(leases.contains_key(q) <==> q < range.low() + count);
    }
}

/// Once as many leases are in force as the range has ports, the range is
/// exhausted and a further lease fails; before that, it is not.
pub proof fn lemma_full_range_is_exhausted(
    leases: Map<u16, TransferId>,
    range: PortRange,
    count: int,
)
    requires
        filled_up_to(leases, range, count),
    ensures
        exhausted(leases, range) <==> count == range.size(),
{
    if count < range.size() {
        let q = (range.low() + count) as u16;
        assert(range.contains(q) && !leases.contains_key(q));
    }
}

/// Releasing a port twice leaves what releasing it once leaves.
pub proof fn lemma_release_is_idempotent(leases: Map<u16, TransferId>, port: u16)
    ensures
        leases.remove(port).remove(port) == leases.remove(port),
{
    assert(leases.remove(port).remove(port) =~= leases.remove(port));
}

/// Releasing a port that is not leased changes nothing, so the next lease
/// finds what it would have found.
pub proof fn lemma_release_of_free_port(leases: Map<u16, TransferId>, port: u16)
    requires
        !leases.contains_key(port),
    ensures
        leases.remove(port) == leases,
{
    assert(leases.remove(port) =~= leases);
}

/// A release touches the released port alone: every other port stays leased
/// to whom it was, or free.
pub proof fn lemma_release_keeps_other_leases(
    leases: Map<u16, TransferId>,
    port: u16,
    other: u16,
)
    requires
        other != port,
    ensures
        leases.remove(port).contains_key(other) == leases.contains_key(other),
        leases.contains_key(other) ==> leases.remove(port)[other] == leases[other],
        !leases.remove(port).contains_key(port),
{
}

} // verus!
