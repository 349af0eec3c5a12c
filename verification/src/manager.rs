//! The transfer manager: the table of transfers, the one port allocator and
//! the one timeout clock that they share.
//!
//! The manager decides; the caller acts. Every call takes what happened (an
//! offer came in, the user accepted, the connection stood, time passed) and
//! returns what is to be done about it as a `Directive`. The manager never
//! touches a socket, a file or a clock itself.
//!
//! # The handshake
//!
//! An offer names the file, its size, and the mode: which side is to listen.
//! It carries an endpoint only if the side that sent it listens already.
//! The side that listens leases its port when the transfer is accepted, not
//! before, and then tells the other side where to connect (`Listen`). The
//! side that connects dials the endpoint it was told (`Dial`); if it has
//! accepted and was told none yet, it says that it accepted and waits for
//! one (`AwaitEndpoint`), which arrives as an accept that carries an
//! endpoint.

use vstd::prelude::*;
use crate::config::{FileTransfer, Server};
use crate::endpoint::{Address, Endpoint};
use crate::policy::{allows, evaluate, Collation, Decision};
use crate::ports::{next_port, PortAllocator, TransferId};
use crate::session::SessionEnd;
use crate::transfer::{
    is_listener, listens, resolve, resolved, Destination, Directive, FailureReason, Mode,
    Progress, Role, State, Transfer, TransferError,
};

verus! {

/// Where `id` stands among `entries`, if it does.
pub open spec fn position_in(entries: Seq<Transfer>, id: TransferId) -> Option<int> {
    if exists|i: int| 0 <= i < entries.len() && (#[trigger] entries[i]).id == id {
        Some(choose|i: int| 0 <= i < entries.len() && (#[trigger] entries[i]).id == id)
    } else {
        None
    }
}

/// The identities rise from each entry to the next, so none occurs twice.
pub open spec fn ascending(entries: Seq<Transfer>) -> bool {
    forall|i: int, j: int|
        0 <= i < j < entries.len() ==> (#[trigger] entries[i]).id.0 < (#[trigger] entries[j]).id.0
}

/// The record of `id` among `entries`, if there is one.
pub open spec fn record_in(entries: Seq<Transfer>, id: TransferId) -> Option<Transfer> {
    match position_in(entries, id) {
        Some(i) => Some(entries[i]),
        None => None,
    }
}

/// What holds of the table and the leases together. Identities rise with
/// the order of creation, so none occurs twice, and all lie below the count
/// of those issued. Every record is well formed. A record that holds a lease
/// holds it in the allocator too, and every lease in the allocator is held
/// by a record.
pub open spec fn consistent(
    entries: Seq<Transfer>,
    leases: Map<u16, TransferId>,
    issued: u64,
) -> bool {
    &&& ascending(entries)
    &&& forall|i: int|
        0 <= i < entries.len() ==> (#[trigger] entries[i]).id.0 < issued && entries[i].wf()
    &&& forall|i: int|
        0 <= i < entries.len() ==> ((#[trigger] entries[i]).lease matches Some(port)
            ==> leases.contains_key(port) && leases[port] == entries[i].id)
    &&& forall|port: u16| #[trigger]
        leases.contains_key(port) ==> held_by_some(entries, leases[port], port)
}

/// Some record of `entries` has the identity `id` and holds the lease on `port`.
pub open spec fn held_by_some(entries: Seq<Transfer>, id: TransferId, port: u16) -> bool {
    exists|i: int|
        0 <= i < entries.len() && (#[trigger] entries[i]).id == id && entries[i].lease == Some(
            port,
        )
}

/// What entering `Connecting` comes to for `record`: the record after it,
/// the leases after it, and what the caller is to do.
///
/// The side that listens leases the lowest free port of the configured
/// range and fails for want of a port where none is free or no range is
/// configured. The side that connects dials the endpoint it was told, or
/// waits to be told one.
pub open spec fn entering(
    record: Transfer,
    server: Option<Server>,
    leases: Map<u16, TransferId>,
) -> (Transfer, Map<u16, TransferId>, Directive) {
    if listens(record.role, record.mode) {
        match server {
            Some(server) => match next_port(leases, server.bind_ports) {
                Some(port) => (
                    Transfer { state: State::Connecting, lease: Some(port), ..record },
                    leases.insert(port, record.id),
                    Directive::Listen {
                        id: record.id,
                        bind: Endpoint { address: server.bind_address, port },
                        advertise: Endpoint { address: server.public_address, port },
                    },
                ),
                None => (
                    Transfer { state: State::Failed(FailureReason::NoPortAvailable), ..record },
                    leases,
                    Directive::Nothing,
                ),
            },
            None => (
                Transfer { state: State::Failed(FailureReason::NoPortAvailable), ..record },
                leases,
                Directive::Nothing,
            ),
        }
    } else {
        match record.peer {
            Some(endpoint) => (
                Transfer { state: State::Connecting, ..record },
                leases,
                Directive::Dial { id: record.id, endpoint },
            ),
            None => (
                Transfer { state: State::Connecting, ..record },
                leases,
                Directive::AwaitEndpoint { id: record.id },
            ),
        }
    }
}

/// The leases once `record` has given up the one it holds.
pub open spec fn without_lease_of(
    leases: Map<u16, TransferId>,
    record: Transfer,
) -> Map<u16, TransferId> {
    match record.lease {
        Some(port) => leases.remove(port),
        None => leases,
    }
}

/// The endpoint that an offer or an accept carries: none without an
/// address, and none with the port zero.
pub open spec fn endpoint_of(address: Option<Address>, port: u16) -> Option<Endpoint> {
    match address {
        Some(address) => if port == 0 {
            None
        } else {
            Some(Endpoint { address, port })
        },
        None => None,
    }
}

/// Reads the endpoint that an offer or an accept carries.
pub fn carried_endpoint(address: Option<Address>, port: u16) -> (endpoint: Option<Endpoint>)
    ensures
        endpoint == endpoint_of(address, port),
{
    match address {
        Some(address) => if port == 0 {
            None
        } else {
            Some(Endpoint { address, port })
        },
        None => None,
    }
}

/// The record of an offer that has just been made or has just come in.
pub open spec fn pending(
    id: TransferId,
    role: Role,
    mode: Mode,
    remote: String,
    file_name: String,
    size: u64,
    endpoint: Option<Endpoint>,
    now: u64,
) -> Transfer {
    Transfer {
        id,
        role,
        mode,
        remote,
        file_name,
        size,
        destination: None,
        created_at: now,
        state: State::Pending,
        progress: Progress { transferred: 0, rate: None },
        peer: endpoint,
        lease: None,
    }
}

/// What the auto-accept policy says of an offer in which this side has
/// `role`: only an offer that comes in, to a receiver, can be allowed.
pub open spec fn verdict(
    config: FileTransfer,
    collation: Collation,
    role: Role,
    nick: Seq<char>,
    hostmask: Seq<char>,
) -> Decision {
    if role == Role::Receiver && allows(
        config.auto_accept,
        config.save_directory is Some,
        collation,
        nick,
        hostmask,
    ) {
        Decision::Allow
    } else {
        Decision::Deny
    }
}

/// What taking in an offer comes to: the entries, the leases and the
/// directive after it. An offer to a receiver that the policy allows, with
/// a save directory configured, is saved there and enters `Connecting` at
/// once; every other offer awaits its accept.
pub open spec fn admitted(
    entries: Seq<Transfer>,
    leases: Map<u16, TransferId>,
    config: FileTransfer,
    offer: Transfer,
    decision: Decision,
) -> (Seq<Transfer>, Map<u16, TransferId>, Directive) {
    if offer.role == Role::Receiver && decision == Decision::Allow && config.save_directory is Some {
        let entered = entering(
            Transfer {
                destination: Some(Destination::Directory(config.save_directory->Some_0)),
                ..offer
            },
            config.server,
            leases,
        );
        (entries.push(entered.0), entered.1, entered.2)
    } else {
        (
            entries.push(Transfer { state: State::AwaitingAccept, ..offer }),
            leases,
            match offer.role {
                Role::Sender => Directive::SendOffer { id: offer.id },
                Role::Receiver => Directive::AwaitDecision { id: offer.id },
            },
        )
    }
}

/// Why an accept by the local user is refused, if it is: there is no such
/// transfer; it is not an offer that came in and awaits its accept; or no
/// path was supplied and no save directory is configured.
pub open spec fn accept_refusal(
    record: Option<Transfer>,
    destination: Option<Destination>,
) -> Option<TransferError> {
    match record {
        None => Some(TransferError::UnknownTransfer),
        Some(record) => if record.state != State::AwaitingAccept || record.role != Role::Receiver {
            Some(TransferError::InvalidState)
        } else if destination is None {
            Some(TransferError::MissingDestination)
        } else {
            None
        },
    }
}

/// The transfer is an offer of this side that awaits the remote user's accept.
pub open spec fn awaits_remote(record: Transfer) -> bool {
    record.state == State::AwaitingAccept && record.role == Role::Sender
}

/// The transfer is accepted, this side connects, and it was not told where
/// to; `endpoint` tells it.
pub open spec fn awaits_endpoint(record: Transfer, endpoint: Option<Endpoint>) -> bool {
    &&& record.state == State::Connecting
    &&& !listens(record.role, record.mode)
    &&& record.peer is None
    &&& endpoint is Some
}

/// Why an accept from the remote user is refused, if it is.
pub open spec fn reply_refusal(
    record: Option<Transfer>,
    endpoint: Option<Endpoint>,
) -> Option<TransferError> {
    match record {
        None => Some(TransferError::UnknownTransfer),
        Some(record) => if awaits_remote(record) || awaits_endpoint(record, endpoint) {
            None
        } else {
            Some(TransferError::InvalidState)
        },
    }
}

/// Why a call that needs the transfer to be in `state` is refused, if it is.
pub open spec fn state_refusal(record: Option<Transfer>, state: State) -> Option<TransferError> {
    match record {
        None => Some(TransferError::UnknownTransfer),
        Some(record) => if record.state != state {
            Some(TransferError::InvalidState)
        } else {
            None
        },
    }
}

/// Why a cancel is refused, if it is: a transfer that has ended cannot be
/// cancelled.
pub open spec fn cancel_refusal(record: Option<Transfer>) -> Option<TransferError> {
    match record {
        None => Some(TransferError::UnknownTransfer),
        Some(record) => if record.state.terminal() {
            Some(TransferError::InvalidState)
        } else {
            None
        },
    }
}

/// Why an acknowledgement is refused, if it is: only a transfer that has
/// ended can be acknowledged.
pub open spec fn acknowledge_refusal(record: Option<Transfer>) -> Option<TransferError> {
    match record {
        None => Some(TransferError::UnknownTransfer),
        Some(record) => if !record.state.terminal() {
            Some(TransferError::InvalidState)
        } else {
            None
        },
    }
}

/// Why a progress report is refused, if it is: the transfer moves no bytes
/// now, or the count goes back, or it passes the declared size.
pub open spec fn progress_refusal(record: Option<Transfer>, transferred: u64) -> Option<
    TransferError,
> {
    match record {
        None => Some(TransferError::UnknownTransfer),
        Some(record) => if record.state != State::Transferring {
            Some(TransferError::InvalidState)
        } else if transferred < record.progress.transferred || (record.size > 0 && transferred
            > record.size) {
            Some(TransferError::InvalidProgress)
        } else {
            None
        },
    }
}

/// The record once the transfer has ended in `state`: it holds no lease.
pub open spec fn ended(record: Transfer, state: State) -> Transfer {
    Transfer { state, lease: None, ..record }
}

/// The state that a session's end leaves the transfer in.
pub open spec fn state_after(end: SessionEnd) -> State {
    match end {
        SessionEnd::Completed => State::Completed,
        SessionEnd::Truncated => State::Failed(FailureReason::Truncated),
        SessionEnd::IoError => State::Failed(FailureReason::IoError),
        SessionEnd::DestinationUnwritable => State::Failed(FailureReason::DestinationUnwritable),
        SessionEnd::Cancelled => State::Cancelled,
    }
}

/// Why a connection that could not be made failed: the side that listens
/// found no port to bind, the side that connects did not reach the peer.
pub open spec fn connect_failure(record: Transfer) -> FailureReason {
    if listens(record.role, record.mode) {
        FailureReason::NoPortAvailable
    } else {
        FailureReason::ConnectFailed
    }
}

/// The record at the time `now`: timed out if its offer has waited longer
/// than `timeout` seconds, else as it is.
pub open spec fn timed(record: Transfer, now: u64, timeout: u64) -> Transfer {
    if record.expired(now, timeout) {
        ended(record, State::TimedOut)
    } else {
        record
    }
}

/// The record after a shutdown: cancelled unless it had ended.
pub open spec fn stopped(record: Transfer) -> Transfer {
    if record.state.terminal() {
        record
    } else {
        ended(record, State::Cancelled)
    }
}

/// Whatever is in both tables has only moved on: a record with the identity
/// of an earlier one is that transfer, further along.
pub open spec fn evolves(before: Seq<Transfer>, after: Seq<Transfer>) -> bool {
    forall|i: int, j: int|
        0 <= i < before.len() && 0 <= j < after.len() && (#[trigger] before[i]).id == (
        #[trigger] after[j]).id ==> before[i].succeeded_by(after[j])
}

proof fn lemma_same_order_evolves(
    before: Seq<Transfer>,
    after: Seq<Transfer>,
    leases: Map<u16, TransferId>,
    issued: u64,
)
    requires
        consistent(before, leases, issued),
        before.len() == after.len(),
        forall|k: int| 0 <= k < before.len() ==> (#[trigger] before[k]).succeeded_by(after[k]),
    ensures
        evolves(before, after),
{
    assert forall|a: int, b: int|
        0 <= a < before.len() && 0 <= b < after.len() && (#[trigger] before[a]).id == (
        #[trigger] after[b]).id implies before[a].succeeded_by(after[b]) by {
        assert(before[b].succeeded_by(after[b]));
        if a < b {
            assert(before[a].id.0 < before[b].id.0);
        } else if b < a {
            assert(before[b].id.0 < before[a].id.0);
        }
    }
}

proof fn lemma_replace(
    entries: Seq<Transfer>,
    leases: Map<u16, TransferId>,
    issued: u64,
    i: int,
    record: Transfer,
    after: Map<u16, TransferId>,
)
    requires
        consistent(entries, leases, issued),
        0 <= i < entries.len(),
        record.id == entries[i].id,
        record.wf(),
        ({
            ||| (record.lease == entries[i].lease && after == leases)
            ||| (entries[i].lease is None && record.lease is Some && !leases.contains_key(
                record.lease->Some_0,
            ) && after == leases.insert(record.lease->Some_0, record.id))
            ||| (record.lease is None && after == without_lease_of(leases, entries[i]))
        }),
    ensures
        consistent(entries.update(i, record), after, issued),
{
    let updated = entries.update(i, record);
    assert forall|a: int, b: int| 0 <= a < b < updated.len() implies (#[trigger] updated[a]).id.0 < (
    #[trigger] updated[b]).id.0 by {
        assert(entries[a].id.0 < entries[b].id.0);
    }
    assert forall|k: int| 0 <= k < updated.len() implies (#[trigger] updated[k]).id.0 < issued
        && updated[k].wf() by {
        assert(entries[k].id.0 < issued && entries[k].wf());
    }
    assert forall|k: int| 0 <= k < updated.len() implies ((#[trigger] updated[k]).lease matches Some(
        port,
    ) ==> after.contains_key(port) && after[port] == updated[k].id) by {
        if updated[k].lease is Some {
            let port = updated[k].lease->Some_0;
            if k != i {
                assert(entries[k].lease == Some(port));
                assert(leases.contains_key(port) && leases[port] == entries[k].id);
                if entries[i].lease is Some {
                    let q = entries[i].lease->Some_0;
                    assert(leases.contains_key(q) && leases[q] == entries[i].id);
                    if k < i {
                        assert(entries[k].id.0 < entries[i].id.0);
                    } else {
                        assert(entries[i].id.0 < entries[k].id.0);
                    }
                }
            } else {
                if entries[i].lease is Some {
                    let q = entries[i].lease->Some_0;
                    assert(leases.contains_key(q) && leases[q] == entries[i].id);
                }
            }
        }
    }
    assert forall|port: u16| #[trigger] after.contains_key(port) implies held_by_some(
        updated,
        after[port],
        port,
    ) by {
        if leases.contains_key(port) && after[port] == leases[port] {
            assert(held_by_some(entries, leases[port], port));
            let k = choose|k: int|
                0 <= k < entries.len() && (#[trigger] entries[k]).id == leases[port]
                    && entries[k].lease == Some(port);
            if k == i {
                assert(entries[i].lease == Some(port));
                assert(updated[i].id == after[port] && updated[i].lease == Some(port));
            } else {
                assert(updated[k].id == after[port] && updated[k].lease == Some(port));
            }
        } else {
            assert(updated[i].id == after[port] && updated[i].lease == Some(port));
        }
    }
}

proof fn lemma_push(
    entries: Seq<Transfer>,
    leases: Map<u16, TransferId>,
    issued: u64,
    record: Transfer,
)
    requires
        consistent(entries, leases, issued),
        issued < u64::MAX,
        record.id.0 == issued,
        record.wf(),
        record.lease is None,
    ensures
        consistent(entries.push(record), leases, (issued + 1) as u64),
        position_in(entries, record.id) is None,
{
    let pushed = entries.push(record);
    assert forall|a: int, b: int| 0 <= a < b < pushed.len() implies (#[trigger] pushed[a]).id.0 < (
    #[trigger] pushed[b]).id.0 by {
        if b < entries.len() {
            assert(entries[a].id.0 < entries[b].id.0);
        } else {
            assert(entries[a].id.0 < issued);
        }
    }
    assert forall|k: int| 0 <= k < pushed.len() implies (#[trigger] pushed[k]).id.0 < issued + 1
        && pushed[k].wf() by {
        if k < entries.len() {
            assert(entries[k].id.0 < issued && entries[k].wf());
        }
    }
    assert forall|k: int| 0 <= k < pushed.len() implies ((#[trigger] pushed[k]).lease matches Some(
        port,
    ) ==> leases.contains_key(port) && leases[port] == pushed[k].id) by {
        if k < entries.len() {
            assert(entries[k].lease == pushed[k].lease);
        }
    }
    assert forall|port: u16| #[trigger] leases.contains_key(port) implies held_by_some(
        pushed,
        leases[port],
        port,
    ) by {
        assert(held_by_some(entries, leases[port], port));
        let k = choose|k: int|
            0 <= k < entries.len() && (#[trigger] entries[k]).id == leases[port]
                && entries[k].lease == Some(port);
        assert(pushed[k].id == leases[port] && pushed[k].lease == Some(port));
    }
    if position_in(entries, record.id) is Some {
        let k = choose|k: int| 0 <= k < entries.len() && (#[trigger] entries[k]).id == record.id;
        assert(entries[k].id.0 < issued);
    }
}

proof fn lemma_remove(entries: Seq<Transfer>, leases: Map<u16, TransferId>, issued: u64, i: int)
    requires
        consistent(entries, leases, issued),
        0 <= i < entries.len(),
        entries[i].lease is None,
    ensures
        consistent(entries.remove(i), leases, issued),
        position_in(entries.remove(i), entries[i].id) is None,
{
    let removed = entries.remove(i);
    assert forall|k: int| 0 <= k < removed.len() implies #[trigger] removed[k] == entries[if k
        < i {
        k
    } else {
        k + 1
    }] by {}
    assert forall|a: int, b: int| 0 <= a < b < removed.len() implies (#[trigger] removed[a]).id.0
        < (#[trigger] removed[b]).id.0 by {
        let a0 = if a < i {
            a
        } else {
            a + 1
        };
        let b0 = if b < i {
            b
        } else {
            b + 1
        };
        assert(entries[a0].id.0 < entries[b0].id.0);
    }
    assert forall|k: int| 0 <= k < removed.len() implies (#[trigger] removed[k]).id.0 < issued
        && removed[k].wf() by {
        let k0 = if k < i {
            k
        } else {
            k + 1
        };
        assert(entries[k0].id.0 < issued && entries[k0].wf());
    }
    assert forall|k: int| 0 <= k < removed.len() implies ((#[trigger] removed[k]).lease matches Some(
        port,
    ) ==> leases.contains_key(port) && leases[port] == removed[k].id) by {
        let k0 = if k < i {
            k
        } else {
            k + 1
        };
        assert(entries[k0].lease == removed[k].lease);
    }
    assert forall|port: u16| #[trigger] leases.contains_key(port) implies held_by_some(
        removed,
        leases[port],
        port,
    ) by {
        assert(held_by_some(entries, leases[port], port));
        let k = choose|k: int|
            0 <= k < entries.len() && (#[trigger] entries[k]).id == leases[port]
                && entries[k].lease == Some(port);
        let k1 = if k < i {
            k
        } else {
            k - 1
        };
        assert(removed[k1].id == leases[port] && removed[k1].lease == Some(port));
    }
    if position_in(removed, entries[i].id) is Some {
        let k = choose|k: int|
            0 <= k < removed.len() && (#[trigger] removed[k]).id == entries[i].id;
        let k0 = if k < i {
            k
        } else {
            k + 1
        };
        if k0 < i {
            assert(entries[k0].id.0 < entries[i].id.0);
        } else {
            assert(entries[i].id.0 < entries[k0].id.0);
        }
    }
}

pub struct Manager {
    config: FileTransfer,
    collation: Collation,
    records: Vec<Transfer>,
    allocator: PortAllocator,
    next_id: u64,
}

impl Manager {
    /// The configuration that the manager was made with.
    pub closed spec fn config(self) -> FileTransfer {
        self.config
    }

    /// How nicks are compared when the auto-accept policy is evaluated.
    pub closed spec fn collation(self) -> Collation {
        self.collation
    }

    /// The records, oldest first.
    pub closed spec fn entries(self) -> Seq<Transfer> {
        self.records@
    }

    /// The leases in force.
    pub closed spec fn leases(self) -> Map<u16, TransferId> {
        self.allocator@
    }

    /// How many identities have been handed out. The next one is this number.
    pub closed spec fn issued(self) -> u64 {
        self.next_id
    }

    /// Where the record of `id` stands among the entries, if there is one.
    pub open spec fn position(self, id: TransferId) -> Option<int> {
        position_in(self.entries(), id)
    }

    /// The record of `id`, if there is one.
    pub open spec fn get(self, id: TransferId) -> Option<Transfer> {
        record_in(self.entries(), id)
    }

    /// The invariant of the manager.
    pub open spec fn wf(self) -> bool {
        consistent(self.entries(), self.leases(), self.issued())
    }

    /// A manager with no transfer and no lease.
    pub fn new(config: FileTransfer, collation: Collation) -> (manager: Manager)
        ensures
            manager.wf(),
            manager.config() == config,
            manager.collation() == collation,
            manager.entries() == Seq::<Transfer>::empty(),
            manager.leases() == Map::<u16, TransferId>::empty(),
            manager.issued() == 0,
    {
        Manager {
            config,
            collation,
            records: Vec::new(),
            allocator: PortAllocator::new(),
            next_id: 0,
        }
    }

    fn find(&self, id: TransferId) -> (r: Option<usize>)
        requires
            self.wf(),
        ensures
            match r {
                Some(i) => i < self.entries().len() && self.position(id) == Some(i as int)
                    && self.entries()[i as int].id == id,
                None => self.position(id) is None,
            },
    {
        let mut i: usize = 0;
        while i < self.records.len()
            invariant
                i <= self.records.len(),
                self.wf(),
                forall|k: int| 0 <= k < i ==> (#[trigger] self.records@[k]).id != id,
            decreases self.records.len() - i,
        {
            if self.records[i].id.0 == id.0 {
                proof {
                    lemma_place_is_unique(self.entries(), i as int);
                }
                return Some(i);
            }
            i = i + 1;
        }
        None
    }

    /// Whether there is no transfer at all, running or ended.
    pub fn is_empty(&self) -> (b: bool)
        ensures
            b == (self.entries().len() == 0),
    {
        self.records.len() == 0
    }

    /// How many transfers there are, running or ended.
    pub fn len(&self) -> (n: usize)
        ensures
            n == self.entries().len(),
    {
        self.records.len()
    }

    /// How many identities have been handed out.
    pub fn identities_issued(&self) -> (n: u64)
        ensures
            n == self.issued(),
    {
        self.next_id
    }

    /// Whether `id` names a transfer.
    pub fn contains(&self, id: TransferId) -> (b: bool)
        requires
            self.wf(),
        ensures
            b == self.get(id) is Some,
    {
        self.find(id).is_some()
    }

    /// The state of the transfer `id`.
    pub fn state(&self, id: TransferId) -> (r: Option<State>)
        requires
            self.wf(),
        ensures
            r == (match self.get(id) {
                Some(record) => Some(record.state),
                None => None,
            }),
    {
        match self.find(id) {
            Some(i) => Some(self.records[i].state),
            None => None,
        }
    }

    /// How far the transfer `id` has come.
    pub fn progress_of(&self, id: TransferId) -> (r: Option<Progress>)
        requires
            self.wf(),
        ensures
            r == (match self.get(id) {
                Some(record) => Some(record.progress),
                None => None,
            }),
    {
        match self.find(id) {
            Some(i) => Some(self.records[i].progress),
            None => None,
        }
    }

    /// A copy of the record of `id`.
    pub fn snapshot(&self, id: TransferId) -> (r: Option<Transfer>)
        requires
            self.wf(),
        ensures
            r == self.get(id),
    {
        match self.find(id) {
            Some(i) => Some(self.records[i].snapshot()),
            None => None,
        }
    }

    /// The transfers that have not ended.
    pub open spec fn running(self) -> Seq<Transfer> {
        self.entries().filter(|record: Transfer| !record.state.terminal())
    }

    /// How many transfers have not ended.
    pub fn in_flight(&self) -> (n: usize)
        ensures
            n == self.running().len(),
    {
        let ghost running = |record: Transfer| !record.state.terminal();
        let mut n: usize = 0;
        let mut i: usize = 0;
        while i < self.records.len()
            invariant
                i <= self.records.len(),
                n <= i,
                running == (|record: Transfer| !record.state.terminal()),
                n == self.records@.take(i as int).filter(running).len(),
            decreases self.records.len() - i,
        {
            proof {
                let s = self.records@;
                assert(s.take(i as int + 1) =~= s.take(i as int).push(s[i as int]));
                s.take(i as int).lemma_filter_push(s[i as int], running);
            }
            if !self.records[i].state.is_terminal() {
                n = n + 1;
            }
            i = i + 1;
        }
        proof {
            assert(self.records@.take(i as int) =~= self.records@);
        }
        n
    }

    /// Whether some transfer has ended and was not acknowledged yet.
    pub fn has_unacknowledged(&self) -> (b: bool)
        ensures
            b == exists|i: int|
                0 <= i < self.entries().len() && (#[trigger] self.entries()[i]).state.terminal(),
    {
        let mut i: usize = 0;
        while i < self.records.len()
            invariant
                i <= self.records.len(),
                forall|k: int| 0 <= k < i ==> !(#[trigger] self.records@[k]).state.terminal(),
            decreases self.records.len() - i,
        {
            if self.records[i].state.is_terminal() {
                return true;
            }
            i = i + 1;
        }
        false
    }

    /// The mode of an offer that this side makes, as configured: passive
    /// asks the remote side to listen.
    pub fn default_mode(&self) -> (mode: Mode)
        ensures
            mode == (if self.config().passive {
                Mode::Passive
            } else {
                Mode::Active
            }),
    {
        if self.config.passive {
            Mode::Passive
        } else {
            Mode::Active
        }
    }

    /// Seconds that an offer may wait for a decision, as configured.
    pub fn timeout(&self) -> (seconds: u64)
        ensures
            seconds == self.config().timeout,
    {
        self.config.timeout
    }
}

impl Manager {
    /// Whether `other` has the configuration and the collation of this manager.
    pub open spec fn set_up_as(self, other: Manager) -> bool {
        self.config() == other.config() && self.collation() == other.collation()
    }

    /// Whether nothing of `other` differs from this manager.
    pub open spec fn same_as(self, other: Manager) -> bool {
        &&& self.set_up_as(other)
        &&& self.entries() == other.entries()
        &&& self.leases() == other.leases()
        &&& self.issued() == other.issued()
    }

    fn enter_connecting(&mut self, index: usize) -> (directive: Directive)
        requires
            old(self).wf(),
            index < old(self).entries().len(),
            old(self).entries()[index as int].state.undecided(),
            old(self).entries()[index as int].lease is None,
            old(self).entries()[index as int].role == Role::Receiver ==> old(
                self,
            ).entries()[index as int].destination is Some,
        ensures
            final(self).wf(),
            final(self).set_up_as(*old(self)),
            final(self).issued() == old(self).issued(),
            ({
                let entered = entering(
                    old(self).entries()[index as int],
                    old(self).config().server,
                    old(self).leases(),
                );
                &&& final(self).entries() == old(self).entries().update(index as int, entered.0)
                &&& final(self).leases() == entered.1
                &&& directive == entered.2
            }),
    {
        let id = self.records[index].id;
        let role = self.records[index].role;
        let mode = self.records[index].mode;
        let mut directive = Directive::Nothing;
        if is_listener(role, mode) {
            let mut leased: Option<(Server, u16)> = None;
            match self.config.server {
                Some(server) => {
                    let low: u16 = server.bind_ports.first();
                    match self.allocator.lease(&server.bind_ports, id) {
                        Ok(port) => {
                            assert(port >= low);
                            leased = Some((server, port));
                        },
                        Err(_) => {},
                    }
                },
                None => {},
            }
            match leased {
                Some((server, port)) => {
                    self.records[index].state = State::Connecting;
                    self.records[index].lease = Some(port);
                    directive =
                    Directive::Listen {
                        id,
                        bind: Endpoint { address: server.bind_address, port },
                        advertise: Endpoint { address: server.public_address, port },
                    };
                },
                None => {
                    self.records[index].state = State::Failed(FailureReason::NoPortAvailable);
                },
            }
        } else {
            self.records[index].state = State::Connecting;
            directive =
            match self.records[index].peer {
                Some(endpoint) => Directive::Dial { id, endpoint },
                None => Directive::AwaitEndpoint { id },
            };
        }
        proof {
            let entered = entering(
                old(self).entries()[index as int],
                old(self).config().server,
                old(self).leases(),
            );
            assert(self.entries() =~= old(self).entries().update(index as int, entered.0));
            lemma_replace(
                old(self).entries(),
                old(self).leases(),
                old(self).issued(),
                index as int,
                entered.0,
                entered.1,
            );
        }
        directive
    }

    fn close(&mut self, index: usize, state: State)
        requires
            old(self).wf(),
            index < old(self).entries().len(),
            state.terminal(),
        ensures
            final(self).wf(),
            final(self).set_up_as(*old(self)),
            final(self).issued() == old(self).issued(),
            final(self).entries() == old(self).entries().update(
                index as int,
                ended(old(self).entries()[index as int], state),
            ),
            final(self).leases() == without_lease_of(
                old(self).leases(),
                old(self).entries()[index as int],
            ),
    {
        match self.records[index].lease {
            Some(port) => {
                self.allocator.release(port);
            },
            None => {},
        }
        self.records[index].lease = None;
        self.records[index].state = state;
        proof {
            let before = old(self).entries()[index as int];
            assert(self.entries() =~= old(self).entries().update(index as int, ended(before, state)));
            lemma_replace(
                old(self).entries(),
                old(self).leases(),
                old(self).issued(),
                index as int,
                ended(before, state),
                without_lease_of(old(self).leases(), before),
            );
        }
    }

    /// Takes in an offer on which the auto-accept policy has said `decision`.
    ///
    /// The offer gets the next identity and a record. If this side receives,
    /// the decision is `Allow` and a save directory is configured, the file
    /// is saved there and the transfer enters `Connecting` at once;
    /// otherwise it awaits its accept: the remote user's for an offer of
    /// this side, the local user's for one that came in.
    pub fn register(
        &mut self,
        role: Role,
        mode: Mode,
        remote: String,
        file_name: String,
        size: u64,
        endpoint: Option<Endpoint>,
        decision: Decision,
        now: u64,
    ) -> (r: (TransferId, Directive))
        requires
            old(self).wf(),
            old(self).issued() < u64::MAX,
        ensures
            final(self).wf(),
            final(self).set_up_as(*old(self)),
            final(self).issued() == old(self).issued() + 1,
            r.0 == TransferId(old(self).issued()),
            old(self).get(r.0) is None,
            evolves(old(self).entries(), final(self).entries()),
            ({
                let after = admitted(
                    old(self).entries(),
                    old(self).leases(),
                    old(self).config(),
                    pending(r.0, role, mode, remote, file_name, size, endpoint, now),
                    decision,
                );
                &&& final(self).entries() == after.0
                &&& final(self).leases() == after.1
                &&& r.1 == after.2
            }),
    {
        let id = TransferId(self.next_id);
        let ghost offer = pending(id, role, mode, remote, file_name, size, endpoint, now);
        let index = self.records.len();
        let auto = match (role, decision) {
            (Role::Receiver, Decision::Allow) => self.config.save_directory.is_some(),
            _ => false,
        };
        let destination = if auto {
            match &self.config.save_directory {
                Some(directory) => Some(Destination::Directory(directory.clone())),
                None => None,
            }
        } else {
            None
        };
        let record = Transfer {
            id,
            role,
            mode,
            remote,
            file_name,
            size,
            destination,
            created_at: now,
            state: if auto {
                State::Pending
            } else {
                State::AwaitingAccept
            },
            progress: Progress { transferred: 0, rate: None },
            peer: endpoint,
            lease: None,
        };
        proof {
            lemma_push(old(self).entries(), old(self).leases(), old(self).issued(), record);
        }
        self.records.push(record);
        self.next_id = self.next_id + 1;
        if auto {
            let directive = self.enter_connecting(index);
            proof {
                let after = admitted(
                    old(self).entries(),
                    old(self).leases(),
                    old(self).config(),
                    offer,
                    decision,
                );
                assert(self.entries() =~= after.0);
            }
            (id, directive)
        } else {
            match role {
                Role::Sender => (id, Directive::SendOffer { id }),
                Role::Receiver => (id, Directive::AwaitDecision { id }),
            }
        }
    }

    /// Takes in an offer: one that this side makes (`role` is `Sender`) or
    /// one that came in (`role` is `Receiver`). An offer that came in is put
    /// to the auto-accept policy, with `remote` as the sender's nick and
    /// `hostmask` as its full identity; what follows is what `register` does
    /// with the policy's decision.
    pub fn offer(
        &mut self,
        role: Role,
        mode: Mode,
        remote: String,
        hostmask: &str,
        file_name: String,
        size: u64,
        endpoint: Option<Endpoint>,
        now: u64,
    ) -> (r: (TransferId, Directive))
        requires
            old(self).wf(),
            old(self).issued() < u64::MAX,
        ensures
            final(self).wf(),
            final(self).set_up_as(*old(self)),
            final(self).issued() == old(self).issued() + 1,
            r.0 == TransferId(old(self).issued()),
            old(self).get(r.0) is None,
            evolves(old(self).entries(), final(self).entries()),
            ({
                let after = admitted(
                    old(self).entries(),
                    old(self).leases(),
                    old(self).config(),
                    pending(r.0, role, mode, remote, file_name, size, endpoint, now),
                    verdict(old(self).config(), old(self).collation(), role, remote@, hostmask@),
                );
                &&& final(self).entries() == after.0
                &&& final(self).leases() == after.1
                &&& r.1 == after.2
            }),
    {
        let decision = match role {
            Role::Receiver => evaluate(
                &self.config.auto_accept,
                self.config.save_directory.is_some(),
                self.collation,
                remote.as_str(),
                hostmask,
            ),
            Role::Sender => Decision::Deny,
        };
        self.register(role, mode, remote, file_name, size, endpoint, decision, now)
    }

    /// Takes in an offer that the chat session delivered. This side
    /// receives; `role_hint` is the mode that the sender declared, `address`
    /// and `port` are where the sender listens, if it says so.
    pub fn receive_offer(
        &mut self,
        remote: String,
        hostmask: &str,
        role_hint: Mode,
        file_name: String,
        size: u64,
        address: Option<Address>,
        port: u16,
        now: u64,
    ) -> (r: (TransferId, Directive))
        requires
            old(self).wf(),
            old(self).issued() < u64::MAX,
        ensures
            final(self).wf(),
            final(self).set_up_as(*old(self)),
            final(self).issued() == old(self).issued() + 1,
            r.0 == TransferId(old(self).issued()),
            old(self).get(r.0) is None,
            evolves(old(self).entries(), final(self).entries()),
            ({
                let after = admitted(
                    old(self).entries(),
                    old(self).leases(),
                    old(self).config(),
                    pending(
                        r.0,
                        Role::Receiver,
                        role_hint,
                        remote,
                        file_name,
                        size,
                        endpoint_of(address, port),
                        now,
                    ),
                    verdict(
                        old(self).config(),
                        old(self).collation(),
                        Role::Receiver,
                        remote@,
                        hostmask@,
                    ),
                );
                &&& final(self).entries() == after.0
                &&& final(self).leases() == after.1
                &&& r.1 == after.2
            }),
    {
        let endpoint = carried_endpoint(address, port);
        self.offer(Role::Receiver, role_hint, remote, hostmask, file_name, size, endpoint, now)
    }

    /// The local user accepts an offer that came in. The file goes to
    /// `save_path` if one is given, else into the configured save directory;
    /// the transfer then enters `Connecting`. A refused call changes nothing.
    pub fn accept(&mut self, id: TransferId, save_path: Option<String>) -> (r: Result<
        Directive,
        TransferError,
    >)
        requires
            old(self).wf(),
        ensures
            final(self).wf(),
            final(self).set_up_as(*old(self)),
            final(self).issued() == old(self).issued(),
            r.err() == accept_refusal(
                old(self).get(id),
                resolved(save_path, old(self).config().save_directory),
            ),
            r is Err ==> final(self).same_as(*old(self)),
            evolves(old(self).entries(), final(self).entries()),
            r matches Ok(directive) ==> ({
                let i = old(self).position(id)->Some_0;
                let entered = entering(
                    Transfer {
                        destination: resolved(save_path, old(self).config().save_directory),
                        ..old(self).entries()[i]
                    },
                    old(self).config().server,
                    old(self).leases(),
                );
                &&& final(self).entries() == old(self).entries().update(i, entered.0)
                &&& final(self).leases() == entered.1
                &&& directive == entered.2
            }),
    {
        let index = match self.find(id) {
            Some(index) => index,
            None => {
                return Err(TransferError::UnknownTransfer);
            },
        };
        let awaiting = match self.records[index].state {
            State::AwaitingAccept => true,
            _ => false,
        };
        let receiving = match self.records[index].role {
            Role::Receiver => true,
            Role::Sender => false,
        };
        if !awaiting || !receiving {
            return Err(TransferError::InvalidState);
        }
        let destination = match resolve(save_path, &self.config.save_directory) {
            Some(destination) => destination,
            None => {
                return Err(TransferError::MissingDestination);
            },
        };
        self.records[index].destination = Some(destination);
        proof {
            let before = old(self).entries()[index as int];
            let told = Transfer { destination: Some(destination), ..before };
            assert(self.entries() =~= old(self).entries().update(index as int, told));
            lemma_replace(
                old(self).entries(),
                old(self).leases(),
                old(self).issued(),
                index as int,
                told,
                old(self).leases(),
            );
        }
        let directive = self.enter_connecting(index);
        proof {
            assert(self.entries() =~= old(self).entries().update(
                index as int,
                entering(
                    Transfer { destination: Some(destination), ..old(self).entries()[index as int] },
                    old(self).config().server,
                    old(self).leases(),
                ).0,
            ));
        }
        Ok(directive)
    }

    /// The remote user's accept came in, with the endpoint it listens on if
    /// `address` and `port` name one.
    ///
    /// For an offer of this side that awaits it, the transfer enters
    /// `Connecting`, with the endpoint noted if one came. For a transfer
    /// that is accepted already and waits to be told where to connect, the
    /// endpoint is noted and dialled. Every other call is refused and
    /// changes nothing.
    pub fn receive_accept(&mut self, id: TransferId, address: Option<Address>, port: u16) -> (r:
        Result<Directive, TransferError>)
        requires
            old(self).wf(),
        ensures
            final(self).wf(),
            final(self).set_up_as(*old(self)),
            final(self).issued() == old(self).issued(),
            r.err() == reply_refusal(old(self).get(id), endpoint_of(address, port)),
            r is Err ==> final(self).same_as(*old(self)),
            evolves(old(self).entries(), final(self).entries()),
            r matches Ok(directive) ==> ({
                let i = old(self).position(id)->Some_0;
                let before = old(self).entries()[i];
                let endpoint = endpoint_of(address, port);
                if awaits_remote(before) {
                    let entered = entering(
                        Transfer {
                            peer: if endpoint is Some {
                                endpoint
                            } else {
                                before.peer
                            },
                            ..before
                        },
                        old(self).config().server,
                        old(self).leases(),
                    );
                    &&& final(self).entries() == old(self).entries().update(i, entered.0)
                    &&& final(self).leases() == entered.1
                    &&& directive == entered.2
                } else {
                    &&& final(self).entries() == old(self).entries().update(
                        i,
                        Transfer { peer: endpoint, ..before },
                    )
                    &&& final(self).leases() == old(self).leases()
                    &&& directive == Directive::Dial { id, endpoint: endpoint->Some_0 }
                }
            }),
    {
        let endpoint = carried_endpoint(address, port);
        let index = match self.find(id) {
            Some(index) => index,
            None => {
                return Err(TransferError::UnknownTransfer);
            },
        };
        let ghost before = old(self).entries()[index as int];
        let role = self.records[index].role;
        let mode = self.records[index].mode;
        let offered = match (self.records[index].state, role) {
            (State::AwaitingAccept, Role::Sender) => true,
            _ => false,
        };
        let connecting = match self.records[index].state {
            State::Connecting => true,
            _ => false,
        };
        if offered {
            if endpoint.is_some() {
                self.records[index].peer = endpoint;
            }
            proof {
                let told = Transfer {
                    peer: if endpoint is Some {
                        endpoint
                    } else {
                        before.peer
                    },
                    ..before
                };
                assert(self.entries() =~= old(self).entries().update(index as int, told));
                lemma_replace(
                    old(self).entries(),
                    old(self).leases(),
                    old(self).issued(),
                    index as int,
                    told,
                    old(self).leases(),
                );
            }
            let directive = self.enter_connecting(index);
            proof {
                let told = Transfer {
                    peer: if endpoint is Some {
                        endpoint
                    } else {
                        before.peer
                    },
                    ..before
                };
                assert(self.entries() =~= old(self).entries().update(
                    index as int,
                    entering(told, old(self).config().server, old(self).leases()).0,
                ));
            }
            Ok(directive)
        } else if connecting && !is_listener(role, mode) && self.records[index].peer.is_none() {
            match endpoint {
                Some(endpoint) => {
                    self.records[index].peer = Some(endpoint);
                    proof {
                        let told = Transfer { peer: Some(endpoint), ..before };
                        assert(self.entries() =~= old(self).entries().update(index as int, told));
                        lemma_replace(
                            old(self).entries(),
                            old(self).leases(),
                            old(self).issued(),
                            index as int,
                            told,
                            old(self).leases(),
                        );
                    }
                    Ok(Directive::Dial { id, endpoint })
                },
                None => Err(TransferError::InvalidState),
            }
        } else {
            Err(TransferError::InvalidState)
        }
    }

    /// Cancels a transfer that has not ended: it becomes `Cancelled` and
    /// gives up its lease, and the caller closes its connection. A refused
    /// call changes nothing.
    pub fn cancel(&mut self, id: TransferId) -> (r: Result<Directive, TransferError>)
        requires
            old(self).wf(),
        ensures
            final(self).wf(),
            final(self).set_up_as(*old(self)),
            final(self).issued() == old(self).issued(),
            r.err() == cancel_refusal(old(self).get(id)),
            r is Err ==> final(self).same_as(*old(self)),
            evolves(old(self).entries(), final(self).entries()),
            r matches Ok(directive) ==> ({
                let i = old(self).position(id)->Some_0;
                let before = old(self).entries()[i];
                &&& final(self).entries() == old(self).entries().update(
                    i,
                    ended(before, State::Cancelled),
                )
                &&& final(self).leases() == without_lease_of(old(self).leases(), before)
                &&& directive == Directive::Close { id }
            }),
    {
        let index = match self.find(id) {
            Some(index) => index,
            None => {
                return Err(TransferError::UnknownTransfer);
            },
        };
        if self.records[index].state.is_terminal() {
            return Err(TransferError::InvalidState);
        }
        self.close(index, State::Cancelled);
        Ok(Directive::Close { id })
    }

    /// The local user turns an offer down. This is a cancel.
    pub fn reject(&mut self, id: TransferId) -> (r: Result<Directive, TransferError>)
        requires
            old(self).wf(),
        ensures
            final(self).wf(),
            final(self).set_up_as(*old(self)),
            final(self).issued() == old(self).issued(),
            r.err() == cancel_refusal(old(self).get(id)),
            r is Err ==> final(self).same_as(*old(self)),
            evolves(old(self).entries(), final(self).entries()),
            r matches Ok(directive) ==> ({
                let i = old(self).position(id)->Some_0;
                let before = old(self).entries()[i];
                &&& final(self).entries() == old(self).entries().update(
                    i,
                    ended(before, State::Cancelled),
                )
                &&& final(self).leases() == without_lease_of(old(self).leases(), before)
                &&& directive == Directive::Close { id }
            }),
    {
        self.cancel(id)
    }

    /// The connection of a transfer in `Connecting` stands: bytes move now.
    pub fn connected(&mut self, id: TransferId) -> (r: Result<(), TransferError>)
        requires
            old(self).wf(),
        ensures
            final(self).wf(),
            final(self).set_up_as(*old(self)),
            final(self).issued() == old(self).issued(),
            final(self).leases() == old(self).leases(),
            r.err() == state_refusal(old(self).get(id), State::Connecting),
            r is Err ==> final(self).same_as(*old(self)),
            evolves(old(self).entries(), final(self).entries()),
            r is Ok ==> ({
                let i = old(self).position(id)->Some_0;
                final(self).entries() == old(self).entries().update(
                    i,
                    Transfer { state: State::Transferring, ..old(self).entries()[i] },
                )
            }),
    {
        let index = match self.find(id) {
            Some(index) => index,
            None => {
                return Err(TransferError::UnknownTransfer);
            },
        };
        match self.records[index].state {
            State::Connecting => {},
            _ => {
                return Err(TransferError::InvalidState);
            },
        }
        self.records[index].state = State::Transferring;
        proof {
            let before = old(self).entries()[index as int];
            let moved = Transfer { state: State::Transferring, ..before };
            assert(self.entries() =~= old(self).entries().update(index as int, moved));
            lemma_replace(
                old(self).entries(),
                old(self).leases(),
                old(self).issued(),
                index as int,
                moved,
                old(self).leases(),
            );
        }
        Ok(())
    }

    /// The connection of a transfer in `Connecting` could not be made: the
    /// port could not be bound, or the peer was not reached. The transfer
    /// fails and gives up its lease. The reason is returned.
    pub fn connection_failed(&mut self, id: TransferId) -> (r: Result<
        FailureReason,
        TransferError,
    >)
        requires
            old(self).wf(),
        ensures
            final(self).wf(),
            final(self).set_up_as(*old(self)),
            final(self).issued() == old(self).issued(),
            r.err() == state_refusal(old(self).get(id), State::Connecting),
            r is Err ==> final(self).same_as(*old(self)),
            evolves(old(self).entries(), final(self).entries()),
            r matches Ok(reason) ==> ({
                let i = old(self).position(id)->Some_0;
                let before = old(self).entries()[i];
                &&& reason == connect_failure(before)
                &&& final(self).entries() == old(self).entries().update(
                    i,
                    ended(before, State::Failed(reason)),
                )
                &&& final(self).leases() == without_lease_of(old(self).leases(), before)
            }),
    {
        let index = match self.find(id) {
            Some(index) => index,
            None => {
                return Err(TransferError::UnknownTransfer);
            },
        };
        match self.records[index].state {
            State::Connecting => {},
            _ => {
                return Err(TransferError::InvalidState);
            },
        }
        let reason = if is_listener(self.records[index].role, self.records[index].mode) {
            FailureReason::NoPortAvailable
        } else {
            FailureReason::ConnectFailed
        };
        self.close(index, State::Failed(reason));
        Ok(reason)
    }

    /// Takes in a progress report of a transfer that moves bytes: the count
    /// of bytes so far and the rate, if one was estimated. A count that goes
    /// back or passes the declared size is refused.
    pub fn report_progress(&mut self, id: TransferId, transferred: u64, rate: Option<u64>) -> (r:
        Result<(), TransferError>)
        requires
            old(self).wf(),
        ensures
            final(self).wf(),
            final(self).set_up_as(*old(self)),
            final(self).issued() == old(self).issued(),
            final(self).leases() == old(self).leases(),
            r.err() == progress_refusal(old(self).get(id), transferred),
            r is Err ==> final(self).same_as(*old(self)),
            evolves(old(self).entries(), final(self).entries()),
            r is Ok ==> ({
                let i = old(self).position(id)->Some_0;
                final(self).entries() == old(self).entries().update(
                    i,
                    Transfer { progress: Progress { transferred, rate }, ..old(self).entries()[i] },
                )
            }),
    {
        let index = match self.find(id) {
            Some(index) => index,
            None => {
                return Err(TransferError::UnknownTransfer);
            },
        };
        match self.records[index].state {
            State::Transferring => {},
            _ => {
                return Err(TransferError::InvalidState);
            },
        }
        let size = self.records[index].size;
        if transferred < self.records[index].progress.transferred || (size > 0 && transferred
            > size) {
            return Err(TransferError::InvalidProgress);
        }
        self.records[index].progress = Progress { transferred, rate };
        proof {
            let before = old(self).entries()[index as int];
            let moved = Transfer { progress: Progress { transferred, rate }, ..before };
            assert(self.entries() =~= old(self).entries().update(index as int, moved));
            lemma_replace(
                old(self).entries(),
                old(self).leases(),
                old(self).issued(),
                index as int,
                moved,
                old(self).leases(),
            );
        }
        Ok(())
    }

    /// The session of a transfer that moves bytes has ended. The transfer
    /// ends as the session did and gives up its lease. The state it ended in
    /// is returned.
    pub fn finish(&mut self, id: TransferId, end: SessionEnd) -> (r: Result<State, TransferError>)
        requires
            old(self).wf(),
        ensures
            final(self).wf(),
            final(self).set_up_as(*old(self)),
            final(self).issued() == old(self).issued(),
            r.err() == state_refusal(old(self).get(id), State::Transferring),
            r is Err ==> final(self).same_as(*old(self)),
            evolves(old(self).entries(), final(self).entries()),
            r matches Ok(state) ==> ({
                let i = old(self).position(id)->Some_0;
                let before = old(self).entries()[i];
                &&& state == state_after(end)
                &&& final(self).entries() == old(self).entries().update(i, ended(before, state))
                &&& final(self).leases() == without_lease_of(old(self).leases(), before)
            }),
    {
        let index = match self.find(id) {
            Some(index) => index,
            None => {
                return Err(TransferError::UnknownTransfer);
            },
        };
        match self.records[index].state {
            State::Transferring => {},
            _ => {
                return Err(TransferError::InvalidState);
            },
        }
        let state = match end {
            SessionEnd::Completed => State::Completed,
            SessionEnd::Truncated => State::Failed(FailureReason::Truncated),
            SessionEnd::IoError => State::Failed(FailureReason::IoError),
            SessionEnd::DestinationUnwritable => State::Failed(
                FailureReason::DestinationUnwritable,
            ),
            SessionEnd::Cancelled => State::Cancelled,
        };
        self.close(index, state);
        Ok(state)
    }

    /// The user has seen how a transfer ended: its record is taken out of
    /// the table and returned. A transfer that has not ended stays.
    pub fn acknowledge(&mut self, id: TransferId) -> (r: Result<Transfer, TransferError>)
        requires
            old(self).wf(),
        ensures
            final(self).wf(),
            final(self).set_up_as(*old(self)),
            final(self).issued() == old(self).issued(),
            final(self).leases() == old(self).leases(),
            r.err() == acknowledge_refusal(old(self).get(id)),
            r is Err ==> final(self).same_as(*old(self)),
            evolves(old(self).entries(), final(self).entries()),
            r matches Ok(record) ==> ({
                let i = old(self).position(id)->Some_0;
                &&& record == old(self).entries()[i]
                &&& final(self).entries() == old(self).entries().remove(i)
                &&& final(self).get(id) is None
            }),
    {
        let index = match self.find(id) {
            Some(index) => index,
            None => {
                return Err(TransferError::UnknownTransfer);
            },
        };
        if !self.records[index].state.is_terminal() {
            return Err(TransferError::InvalidState);
        }
        proof {
            assert(old(self).entries()[index as int].wf());
            lemma_remove(old(self).entries(), old(self).leases(), old(self).issued(), index as int);
        }
        let record = self.records.remove(index);
        Ok(record)
    }
}

impl Manager {
    /// Lets time pass: every offer that has waited for its accept longer
    /// than the configured timeout at the time `now` times out. The
    /// identities of those that did are returned, oldest first. No lease
    /// changes hands: an offer that still waits holds none.
    pub fn tick(&mut self, now: u64) -> (ids: Vec<TransferId>)
        requires
            old(self).wf(),
        ensures
            final(self).wf(),
            final(self).set_up_as(*old(self)),
            final(self).issued() == old(self).issued(),
            final(self).leases() == old(self).leases(),
            final(self).entries() == old(self).entries().map_values(
                |record: Transfer| timed(record, now, old(self).config().timeout),
            ),
            ids@ == old(self).entries().filter(
                |record: Transfer| record.expired(now, old(self).config().timeout),
            ).map_values(|record: Transfer| record.id),
            evolves(old(self).entries(), final(self).entries()),
    {
        let timeout = self.config.timeout;
        let n = self.records.len();
        let ghost late = |record: Transfer| record.expired(now, timeout);
        let ghost name = |record: Transfer| record.id;
        let mut ids: Vec<TransferId> = Vec::new();
        let mut i: usize = 0;
        proof {
            assert(old(self).entries().take(0).filter(late) =~= Seq::<Transfer>::empty());
        }
        while i < n
            invariant
                i <= n,
                n == old(self).entries().len(),
                self.entries().len() == n,
                timeout == old(self).config().timeout,
                late == (|record: Transfer| record.expired(now, timeout)),
                name == (|record: Transfer| record.id),
                old(self).wf(),
                self.wf(),
                self.set_up_as(*old(self)),
                self.issued() == old(self).issued(),
                self.leases() == old(self).leases(),
                forall|k: int|
                    0 <= k < i ==> #[trigger] self.entries()[k] == timed(
                        old(self).entries()[k],
                        now,
                        timeout,
                    ),
                forall|k: int| i <= k < n ==> #[trigger] self.entries()[k] == old(self).entries()[k],
                ids@ == old(self).entries().take(i as int).filter(late).map_values(name),
            decreases n - i,
        {
            proof {
                let all = old(self).entries();
                assert(all.take(i as int + 1) =~= all.take(i as int).push(all[i as int]));
                all.take(i as int).lemma_filter_push(all[i as int], late);
                assert(self.entries()[i as int] == all[i as int]);
                assert(all[i as int].wf());
            }
            if self.records[i].is_expired(now, timeout) {
                ids.push(self.records[i].id);
                self.close(i, State::TimedOut);
                proof {
                    let all = old(self).entries();
                    assert(ids@ =~= all.take(i as int + 1).filter(late).map_values(name));
                }
            }
            i = i + 1;
        }
        proof {
            let all = old(self).entries();
            assert(all.take(n as int) =~= all);
            assert(self.entries() =~= all.map_values(
                |record: Transfer| timed(record, now, old(self).config().timeout),
            ));
            lemma_same_order_evolves(all, self.entries(), old(self).leases(), old(self).issued());
        }
        ids
    }

    /// Cancels every transfer that has not ended, and so frees every lease.
    /// The identities of those cancelled are returned, oldest first: the
    /// caller closes their connections.
    pub fn shutdown(&mut self) -> (ids: Vec<TransferId>)
        requires
            old(self).wf(),
        ensures
            final(self).wf(),
            final(self).set_up_as(*old(self)),
            final(self).issued() == old(self).issued(),
            final(self).leases() == Map::<u16, TransferId>::empty(),
            final(self).entries() == old(self).entries().map_values(
                |record: Transfer| stopped(record),
            ),
            ids@ == old(self).running().map_values(|record: Transfer| record.id),
            evolves(old(self).entries(), final(self).entries()),
    {
        let n = self.records.len();
        let ghost alive = |record: Transfer| !record.state.terminal();
        let ghost name = |record: Transfer| record.id;
        let mut ids: Vec<TransferId> = Vec::new();
        let mut i: usize = 0;
        proof {
            assert(old(self).entries().take(0).filter(alive) =~= Seq::<Transfer>::empty());
        }
        while i < n
            invariant
                i <= n,
                n == old(self).entries().len(),
                self.entries().len() == n,
                alive == (|record: Transfer| !record.state.terminal()),
                name == (|record: Transfer| record.id),
                old(self).wf(),
                self.wf(),
                self.set_up_as(*old(self)),
                self.issued() == old(self).issued(),
                forall|k: int| 0 <= k < i ==> #[trigger] self.entries()[k] == stopped(
                    old(self).entries()[k],
                ),
                forall|k: int| i <= k < n ==> #[trigger] self.entries()[k] == old(self).entries()[k],
                ids@ == old(self).entries().take(i as int).filter(alive).map_values(name),
            decreases n - i,
        {
            proof {
                let all = old(self).entries();
                assert(all.take(i as int + 1) =~= all.take(i as int).push(all[i as int]));
                all.take(i as int).lemma_filter_push(all[i as int], alive);
                assert(self.entries()[i as int] == all[i as int]);
            }
            if !self.records[i].state.is_terminal() {
                ids.push(self.records[i].id);
                self.close(i, State::Cancelled);
                proof {
                    let all = old(self).entries();
                    assert(ids@ =~= all.take(i as int + 1).filter(alive).map_values(name));
                }
            }
            i = i + 1;
        }
        proof {
            let all = old(self).entries();
            assert(all.take(n as int) =~= all);
            assert(self.entries() =~= all.map_values(|record: Transfer| stopped(record)));
            lemma_same_order_evolves(all, self.entries(), old(self).leases(), old(self).issued());
            assert forall|port: u16| !self.leases().contains_key(port) by {
                if self.leases().contains_key(port) {
                    assert(held_by_some(self.entries(), self.leases()[port], port));
                    let k = choose|k: int|
                        0 <= k < self.entries().len() && (#[trigger] self.entries()[k]).id
                            == self.leases()[port] && self.entries()[k].lease == Some(port);
                    assert(self.entries()[k] == stopped(all[k]));
                    assert(self.entries()[k].wf());
                }
            }
            assert(self.leases() =~= Map::<u16, TransferId>::empty());
        }
        ids
    }
}

/// A lease is held by exactly one transfer, which listens and is in
/// `Connecting` or `Transferring`; a transfer that still waits for its
/// accept, or has ended in whatever way, holds none.
pub proof fn lemma_leases_are_held(manager: Manager, port: u16)
    requires
        manager.wf(),
        manager.leases().contains_key(port),
    ensures
        manager.get(manager.leases()[port]) matches Some(holder) && {
            &&& holder.lease == Some(port)
            &&& listens(holder.role, holder.mode)
            &&& holder.state == State::Connecting || holder.state == State::Transferring
        },
{
    let entries = manager.entries();
    assert(held_by_some(entries, manager.leases()[port], port));
    let k = choose|k: int|
        0 <= k < entries.len() && (#[trigger] entries[k]).id == manager.leases()[port]
            && entries[k].lease == Some(port);
    lemma_place_is_unique(entries, k);
    assert(entries[k].wf());
}

/// The record of a transfer that waits for its accept or has ended holds no
/// lease, and no lease in the allocator names it: when a transfer ends, by
/// completion, failure, cancellation or timeout, its port is free again.
pub proof fn lemma_ended_transfers_hold_no_lease(manager: Manager, id: TransferId, port: u16)
    requires
        manager.wf(),
        manager.get(id) matches Some(record) && (record.state.terminal()
            || record.state.undecided()),
    ensures
        manager.get(id)->Some_0.lease is None,
        manager.leases().contains_key(port) ==> manager.leases()[port] != id,
{
    let entries = manager.entries();
    let i = manager.position(id)->Some_0;
    assert(entries[i].wf());
    if manager.leases().contains_key(port) && manager.leases()[port] == id {
        lemma_leases_are_held(manager, port);
    }
}

/// No two transfers hold the same port, and no transfer holds two.
pub proof fn lemma_leases_are_exclusive(manager: Manager, i: int, j: int)
    requires
        manager.wf(),
        0 <= i < manager.entries().len(),
        0 <= j < manager.entries().len(),
        manager.entries()[i].lease is Some,
        manager.entries()[i].lease == manager.entries()[j].lease,
    ensures
        i == j,
{
    let entries = manager.entries();
    let port = entries[i].lease->Some_0;
    assert(manager.leases()[port] == entries[i].id);
    assert(manager.leases()[port] == entries[j].id);
    if i < j {
        assert(entries[i].id.0 < entries[j].id.0);
    } else if j < i {
        assert(entries[j].id.0 < entries[i].id.0);
    }
}

/// An identity names at most one record, and the record it names carries it.
pub proof fn lemma_identities_are_unique(manager: Manager, i: int)
    requires
        manager.wf(),
        0 <= i < manager.entries().len(),
    ensures
        manager.position(manager.entries()[i].id) == Some(i),
        manager.get(manager.entries()[i].id) == Some(manager.entries()[i]),
        manager.entries()[i].id.0 < manager.issued(),
{
    lemma_place_is_unique(manager.entries(), i);
}

proof fn lemma_place_is_unique(entries: Seq<Transfer>, i: int)
    requires
        ascending(entries),
        0 <= i < entries.len(),
    ensures
        position_in(entries, entries[i].id) == Some(i),
{
    let id = entries[i].id;
    let found = choose|k: int| 0 <= k < entries.len() && (#[trigger] entries[k]).id == id;
    if found < i {
        assert(entries[found].id.0 < entries[i].id.0);
    } else if i < found {
        assert(entries[i].id.0 < entries[found].id.0);
    }
}

/// Where one record is replaced by one of the same identity, that identity
/// names the new record, and every other identity names what it named.
pub proof fn lemma_record_after_update(
    entries: Seq<Transfer>,
    i: int,
    record: Transfer,
    id: TransferId,
)
    requires
        ascending(entries),
        0 <= i < entries.len(),
        record.id == entries[i].id,
    ensures
        ascending(entries.update(i, record)),
        record_in(entries.update(i, record), id) == (if id == record.id {
            Some(record)
        } else {
            record_in(entries, id)
        }),
{
    let updated = entries.update(i, record);
    assert forall|a: int, b: int| 0 <= a < b < updated.len() implies (#[trigger] updated[a]).id.0 < (
    #[trigger] updated[b]).id.0 by {
        assert(entries[a].id.0 < entries[b].id.0);
    }
    if position_in(updated, id) is Some {
        let k = position_in(updated, id)->Some_0;
        assert(entries[k].id == id);
        lemma_place_is_unique(entries, k);
        lemma_place_is_unique(updated, k);
    }
    if position_in(entries, id) is Some {
        let k = position_in(entries, id)->Some_0;
        assert(updated[k].id == id);
        lemma_place_is_unique(entries, k);
        lemma_place_is_unique(updated, k);
    }
    lemma_place_is_unique(entries, i);
}

/// Where a record with a new, higher identity is added, that identity
/// names it, and every other identity names what it named.
pub proof fn lemma_record_after_push(entries: Seq<Transfer>, record: Transfer, id: TransferId)
    requires
        ascending(entries),
        forall|k: int| 0 <= k < entries.len() ==> (#[trigger] entries[k]).id.0 < record.id.0,
    ensures
        ascending(entries.push(record)),
        record_in(entries, record.id) is None,
        record_in(entries.push(record), id) == (if id == record.id {
            Some(record)
        } else {
            record_in(entries, id)
        }),
{
    let pushed = entries.push(record);
    assert forall|a: int, b: int| 0 <= a < b < pushed.len() implies (#[trigger] pushed[a]).id.0 < (
    #[trigger] pushed[b]).id.0 by {
        if b < entries.len() {
            assert(entries[a].id.0 < entries[b].id.0);
        } else {
            assert(entries[a].id.0 < record.id.0);
        }
    }
    if position_in(entries, record.id) is Some {
        let k = position_in(entries, record.id)->Some_0;
        assert(entries[k].id.0 < record.id.0);
    }
    if position_in(pushed, id) is Some {
        let k = position_in(pushed, id)->Some_0;
        lemma_place_is_unique(pushed, k);
        if k < entries.len() {
            assert(entries[k].id == id);
            lemma_place_is_unique(entries, k);
        }
    }
    if position_in(entries, id) is Some {
        let k = position_in(entries, id)->Some_0;
        assert(pushed[k].id == id);
        lemma_place_is_unique(entries, k);
        lemma_place_is_unique(pushed, k);
    }
    assert(pushed[entries.len() as int].id == record.id);
    lemma_place_is_unique(pushed, entries.len() as int);
}

/// Where a record is taken out, its identity names nothing, and every other
/// identity names what it named.
pub proof fn lemma_record_after_remove(entries: Seq<Transfer>, i: int, id: TransferId)
    requires
        ascending(entries),
        0 <= i < entries.len(),
    ensures
        ascending(entries.remove(i)),
        record_in(entries.remove(i), id) == (if id == entries[i].id {
            None
        } else {
            record_in(entries, id)
        }),
{
    let removed = entries.remove(i);
    assert forall|a: int, b: int| 0 <= a < b < removed.len() implies (#[trigger] removed[a]).id.0
        < (#[trigger] removed[b]).id.0 by {
        let a0 = if a < i {
            a
        } else {
            a + 1
        };
        let b0 = if b < i {
            b
        } else {
            b + 1
        };
        assert(removed[a] == entries[a0] && removed[b] == entries[b0]);
        assert(entries[a0].id.0 < entries[b0].id.0);
    }
    if position_in(removed, id) is Some {
        let k = position_in(removed, id)->Some_0;
        let k0 = if k < i {
            k
        } else {
            k + 1
        };
        assert(removed[k] == entries[k0]);
        lemma_place_is_unique(removed, k);
        lemma_place_is_unique(entries, k0);
        lemma_place_is_unique(entries, i);
    }
    if position_in(entries, id) is Some {
        let k = position_in(entries, id)->Some_0;
        lemma_place_is_unique(entries, k);
        lemma_place_is_unique(entries, i);
        if k != i {
            let k1 = if k < i {
                k
            } else {
                k - 1
            };
            assert(removed[k1] == entries[k]);
            lemma_place_is_unique(removed, k1);
        }
    }
}

/// Where every record is changed in a way that keeps its identity, each
/// identity names the changed record of what it named.
pub proof fn lemma_record_after_map(
    entries: Seq<Transfer>,
    change: spec_fn(Transfer) -> Transfer,
    id: TransferId,
)
    requires
        ascending(entries),
        forall|record: Transfer| (#[trigger] change(record)).id == record.id,
    ensures
        ascending(entries.map_values(change)),
        record_in(entries.map_values(change), id) == (match record_in(entries, id) {
            Some(record) => Some(change(record)),
            None => None,
        }),
{
    let changed = entries.map_values(change);
    assert forall|k: int| 0 <= k < changed.len() implies (#[trigger] changed[k]).id
        == entries[k].id by {
        assert(change(entries[k]).id == entries[k].id);
    }
    assert forall|a: int, b: int| 0 <= a < b < changed.len() implies (#[trigger] changed[a]).id.0 < (
    #[trigger] changed[b]).id.0 by {
        assert(entries[a].id.0 < entries[b].id.0);
    }
    if position_in(changed, id) is Some {
        let k = position_in(changed, id)->Some_0;
        assert(entries[k].id == id);
        lemma_place_is_unique(entries, k);
        lemma_place_is_unique(changed, k);
    }
    if position_in(entries, id) is Some {
        let k = position_in(entries, id)->Some_0;
        assert(changed[k].id == id);
        lemma_place_is_unique(entries, k);
        lemma_place_is_unique(changed, k);
    }
}

/// When time passes, every offer that has waited for its accept longer than
/// the timeout is timed out and holds no lease, and nothing else changes.
pub proof fn lemma_late_offers_time_out(
    entries: Seq<Transfer>,
    now: u64,
    timeout: u64,
    id: TransferId,
)
    requires
        ascending(entries),
    ensures
        record_in(entries.map_values(|record: Transfer| timed(record, now, timeout)), id) == (
        match record_in(entries, id) {
            Some(record) => Some(timed(record, now, timeout)),
            None => None,
        }),
        record_in(entries, id) matches Some(record) ==> ((record.state == State::AwaitingAccept
            || record.state == State::Pending) && now - record.created_at > timeout ==> timed(
            record,
            now,
            timeout,
        ).state == State::TimedOut && timed(record, now, timeout).lease is None),
{
    lemma_record_after_map(entries, |record: Transfer| timed(record, now, timeout), id);
}

} // verus!
