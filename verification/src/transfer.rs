//! One transfer: who it is with, which way the file goes, which side
//! listens, and how far along it is.

use vstd::prelude::*;
use crate::endpoint::Endpoint;
use crate::ports::TransferId;

verus! {

/// Which way the file goes, seen from this side.
#[derive(Clone, Copy, Debug, PartialEq, Eq, Structural)]
pub enum Role {
    Sender,
    Receiver,
}

/// How the sender asked for the connection to be made. In an `Active`
/// transfer the sender listens and the receiver connects to it; in a
/// `Passive` one the sender acts as the client and the receiver listens.
#[derive(Clone, Copy, Debug, PartialEq, Eq, Structural)]
pub enum Mode {
    Active,
    Passive,
}

impl Role {
    /// The role of the other side.
    pub open spec fn opposite(self) -> Role {
        match self {
            Role::Sender => Role::Receiver,
            Role::Receiver => Role::Sender,
        }
    }

    /// The role of the other side.
    pub fn other(&self) -> (r: Role)
        ensures
            r == self.opposite(),
    {
        match self {
            Role::Sender => Role::Receiver,
            Role::Receiver => Role::Sender,
        }
    }
}

/// Whether the side with this role listens in a transfer of this mode: the
/// sender of an active transfer, the receiver of a passive one.
pub open spec fn listens(role: Role, mode: Mode) -> bool {
    match (role, mode) {
        (Role::Sender, Mode::Active) => true,
        (Role::Sender, Mode::Passive) => false,
        (Role::Receiver, Mode::Active) => false,
        (Role::Receiver, Mode::Passive) => true,
    }
}

/// Whether the side with this role binds a port and listens; the other side
/// dials.
pub fn is_listener(role: Role, mode: Mode) -> (b: bool)
    ensures
        b == listens(role, mode),
{
    match (role, mode) {
        (Role::Sender, Mode::Active) => true,
        (Role::Sender, Mode::Passive) => false,
        (Role::Receiver, Mode::Active) => false,
        (Role::Receiver, Mode::Passive) => true,
    }
}

/// Of the two sides of a transfer exactly one listens, whatever the mode.
pub proof fn lemma_exactly_one_side_listens(role: Role, mode: Mode)
    ensures
        listens(role, mode) != listens(role.opposite(), mode),
{
}

/// Why a transfer failed.
#[derive(Clone, Copy, Debug, PartialEq, Eq, Structural)]
pub enum FailureReason {
    /// No port of the range was free, or the port could not be bound.
    NoPortAvailable,
    /// The peer could not be reached.
    ConnectFailed,
    /// Reading or writing failed while the bytes were moved.
    IoError,
    /// The peer closed the connection before all bytes had come.
    Truncated,
    /// The file could not be created or written where it was to be saved.
    DestinationUnwritable,
}

/// Where a transfer stands.
#[derive(Clone, Copy, Debug, PartialEq, Eq, Structural)]
pub enum State {
    /// The offer exists; nothing is decided.
    Pending,
    /// The offer was sent to the remote user, or came in and waits for the
    /// local user to decide.
    AwaitingAccept,
    /// Accepted; the listener binds or the connector dials.
    Connecting,
    /// The connection stands and bytes move.
    Transferring,
    Completed,
    Failed(FailureReason),
    Cancelled,
    TimedOut,
}

impl State {
    /// How far along a state is. Every change of state raises it.
    pub open spec fn rank(self) -> nat {
        match self {
            State::Pending => 0,
            State::AwaitingAccept => 1,
            State::Connecting => 2,
            State::Transferring => 3,
            State::Completed | State::Failed(_) | State::Cancelled | State::TimedOut => 4,
        }
    }

    /// A state that is never left.
    pub open spec fn terminal(self) -> bool {
        self.rank() == 4
    }

    /// A state in which the offer still waits for a decision.
    pub open spec fn undecided(self) -> bool {
        self.rank() <= 1
    }

    /// `next` is this state, or one further along.
    pub open spec fn leads_to(self, next: State) -> bool {
        self == next || self.rank() < next.rank()
    }

    pub fn is_terminal(&self) -> (b: bool)
        ensures
            b == self.terminal(),
    {
        match self {
            State::Completed | State::Failed(_) | State::Cancelled | State::TimedOut => true,
            _ => false,
        }
    }

    pub fn is_undecided(&self) -> (b: bool)
        ensures
            b == self.undecided(),
    {
        match self {
            State::Pending | State::AwaitingAccept => true,
            _ => false,
        }
    }
}

/// No state is revisited: a state that leads to another and back is that
/// other state, and a terminal state leads to itself alone.
pub proof fn lemma_states_never_return(a: State, b: State, c: State)
    requires
        a.leads_to(b),
        b.leads_to(c),
    ensures
        a.leads_to(c),
        c == a ==> b == a,
        a.terminal() ==> b == a,
{
}

/// How much of the file has been moved.
#[derive(Clone, Copy, Debug, PartialEq, Eq, Structural)]
pub struct Progress {
    /// Bytes moved so far.
    pub transferred: u64,
    /// Bytes per second at the last report, if one was estimated.
    pub rate: Option<u64>,
}

/// Where a received file is saved.
#[derive(Debug, Clone, PartialEq, Eq)]
pub enum Destination {
    /// At this path, which the user chose.
    Path(String),
    /// In the configured save directory, under the file's own name.
    Directory(String),
}

impl Destination {
    pub fn duplicate(&self) -> (copy: Destination)
        ensures
            copy == *self,
    {
        match self {
            Destination::Path(path) => Destination::Path(path.clone()),
            Destination::Directory(directory) => Destination::Directory(directory.clone()),
        }
    }
}

/// The destination that an accept resolves to: the path that was supplied,
/// else the configured save directory, else none.
pub open spec fn resolved(supplied: Option<String>, directory: Option<String>) -> Option<
    Destination,
> {
    match (supplied, directory) {
        (Some(path), _) => Some(Destination::Path(path)),
        (None, Some(directory)) => Some(Destination::Directory(directory)),
        (None, None) => None,
    }
}

/// Resolves where to save: the supplied path wins over the save directory.
pub fn resolve(supplied: Option<String>, directory: &Option<String>) -> (r: Option<Destination>)
    ensures
        r == resolved(supplied, *directory),
{
    match supplied {
        Some(path) => Some(Destination::Path(path)),
        None => match directory {
            Some(directory) => Some(Destination::Directory(directory.clone())),
            None => None,
        },
    }
}

/// What is known of one transfer.
#[derive(Debug, Clone, PartialEq, Eq)]
pub struct Transfer {
    pub id: TransferId,
    pub role: Role,
    pub mode: Mode,
    /// The other participant.
    pub remote: String,
    pub file_name: String,
    /// The declared size in bytes; zero where it is not known.
    pub size: u64,
    /// Where the file is saved, once that is resolved.
    pub destination: Option<Destination>,
    /// When the offer was made or came in, in seconds.
    pub created_at: u64,
    pub state: State,
    pub progress: Progress,
    /// Where the remote side listens, once it has said so.
    pub peer: Option<Endpoint>,
    /// The port leased for this transfer while this side listens.
    pub lease: Option<u16>,
}

impl Transfer {
    /// What holds of every record: progress stays within a known size and
    /// starts only with the connection; a lease is held only by the
    /// listening side, from accept to the end; a receiver that was accepted
    /// knows where to save.
    pub open spec fn wf(self) -> bool {
        &&& self.size > 0 ==> self.progress.transferred <= self.size
        &&& self.progress.transferred > 0 ==> self.state.rank() >= 3
        &&& self.lease is Some ==> listens(self.role, self.mode) && (self.state
            == State::Connecting || self.state == State::Transferring)
        &&& self.lease matches Some(port) ==> port >= 1
        &&& (self.role == Role::Receiver && (self.state == State::Connecting || self.state
            == State::Transferring)) ==> self.destination is Some
    }

    /// `next` is this transfer, no further back: what was fixed when it was
    /// offered is as it was, the state is the same or further along, and no
    /// fewer bytes are counted.
    pub open spec fn succeeded_by(self, next: Transfer) -> bool {
        &&& next.id == self.id
        &&& next.role == self.role
        &&& next.mode == self.mode
        &&& next.remote == self.remote
        &&& next.file_name == self.file_name
        &&& next.size == self.size
        &&& next.created_at == self.created_at
        &&& self.state.leads_to(next.state)
        &&& self.progress.transferred <= next.progress.transferred
    }

    /// Whether the offer has waited for a decision for longer than `timeout`
    /// seconds at the time `now`.
    pub open spec fn expired(self, now: u64, timeout: u64) -> bool {
        self.state.undecided() && now - self.created_at > timeout
    }

    pub fn is_expired(&self, now: u64, timeout: u64) -> (b: bool)
        ensures
            b == self.expired(now, timeout),
    {
        self.state.is_undecided() && now > self.created_at && now - self.created_at > timeout
    }

    /// A copy of the record.
    pub fn snapshot(&self) -> (copy: Transfer)
        ensures
            copy == *self,
    {
        Transfer {
            id: self.id,
            role: self.role,
            mode: self.mode,
            remote: self.remote.clone(),
            file_name: self.file_name.clone(),
            size: self.size,
            destination: match &self.destination {
                Some(destination) => Some(destination.duplicate()),
                None => None,
            },
            created_at: self.created_at,
            state: self.state,
            progress: self.progress,
            peer: self.peer,
            lease: self.lease,
        }
    }
}

/// Why a call on a transfer was refused. The transfer is left as it was.
#[derive(Clone, Copy, Debug, PartialEq, Eq, Structural)]
pub enum TransferError {
    /// No transfer has this identity.
    UnknownTransfer,
    /// The transfer is in a state that does not permit the call.
    InvalidState,
    /// Accepted without a path, and no save directory is configured.
    MissingDestination,
    /// A progress report that goes back, or beyond the declared size.
    InvalidProgress,
}

/// What the caller is to do after a call.
#[derive(Clone, Copy, Debug, PartialEq, Eq, Structural)]
pub enum Directive {
    /// Nothing.
    Nothing,
    /// Send the offer to the remote user.
    SendOffer { id: TransferId },
    /// Ask the local user whether to accept.
    AwaitDecision { id: TransferId },
    /// Bind `bind` and listen, and tell the remote user to connect to
    /// `advertise`.
    Listen { id: TransferId, bind: Endpoint, advertise: Endpoint },
    /// Connect to `endpoint`.
    Dial { id: TransferId, endpoint: Endpoint },
    /// Tell the remote user that the offer is accepted, and wait until it
    /// says where it listens.
    AwaitEndpoint { id: TransferId },
    /// Stop moving bytes and close the connection, if there is one.
    Close { id: TransferId },
}

} // verus!
