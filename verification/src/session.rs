//! The session: the bookkeeping of one connection's byte stream.
//!
//! The caller owns the socket and the file and moves the bytes; after each
//! read or write it reports what happened, and the session says whether to
//! go on, how many bytes to ask for next, and how the transfer ended. The
//! session knows nothing of negotiation, policy or ports.

use vstd::prelude::*;
use crate::transfer::Role;

verus! {

/// The most bytes moved in one step.
pub const CHUNK_SIZE: u64 = 8192;

/// How a session ended.
#[derive(Clone, Copy, Debug, PartialEq, Eq, Structural)]
pub enum SessionEnd {
    /// All declared bytes were moved, or, where the size is not known, the
    /// source ended cleanly.
    Completed,
    /// The source ended cleanly before the declared size was reached.
    Truncated,
    /// Reading or writing failed.
    IoError,
    /// The destination could not be created or written.
    DestinationUnwritable,
    /// The session was cancelled.
    Cancelled,
}

/// What one read or write came to.
#[derive(Clone, Copy, Debug, PartialEq, Eq, Structural)]
pub enum IoEvent {
    /// This many more bytes went from the source to the sink.
    Moved(u64),
    /// The source ended cleanly: the peer closed the connection, or the file
    /// that is sent has no more bytes.
    Closed,
    /// The socket or the file failed.
    Failed,
    /// The destination is not writable.
    Unwritable,
}

/// What to do after an event.
#[derive(Clone, Copy, Debug, PartialEq, Eq, Structural)]
pub enum Step {
    /// Publish `transferred` and move up to `request` more bytes.
    Continue { transferred: u64, request: u64 },
    /// Stop: the session has ended.
    Done(SessionEnd),
}

/// How an event ends a session that is still running and not cancelled, if
/// it ends it.
pub open spec fn ending(role: Role, size: u64, transferred: u64, event: IoEvent) -> Option<
    SessionEnd,
> {
    match event {
        IoEvent::Moved(count) => if size > 0 {
            if transferred + count > size {
                Some(SessionEnd::IoError)
            } else if transferred + count == size {
                Some(SessionEnd::Completed)
            } else {
                None
            }
        } else if transferred + count > u64::MAX {
            Some(SessionEnd::IoError)
        } else {
            None
        },
        IoEvent::Closed => if size > 0 {
            Some(SessionEnd::Truncated)
        } else {
            Some(SessionEnd::Completed)
        },
        IoEvent::Failed => Some(SessionEnd::IoError),
        IoEvent::Unwritable => match role {
            Role::Receiver => Some(SessionEnd::DestinationUnwritable),
            Role::Sender => Some(SessionEnd::IoError),
        },
    }
}

/// The bytes counted after an event in a session that is still running and
/// not cancelled: bytes that were moved count unless they overrun.
pub open spec fn counted(size: u64, transferred: u64, event: IoEvent) -> u64 {
    match event {
        IoEvent::Moved(count) => if transferred + count <= (if size > 0 {
            size
        } else {
            u64::MAX
        }) {
            (transferred + count) as u64
        } else {
            transferred
        },
        _ => transferred,
    }
}

pub struct Session {
    role: Role,
    size: u64,
    transferred: u64,
    cancelled: bool,
    end: Option<SessionEnd>,
}

impl Session {
    pub closed spec fn role(self) -> Role {
        self.role
    }

    /// The declared size; zero where it is not known.
    pub closed spec fn size(self) -> u64 {
        self.size
    }

    /// Bytes moved so far.
    pub closed spec fn transferred(self) -> u64 {
        self.transferred
    }

    /// Whether a cancellation waits to be noticed.
    pub closed spec fn cancelled(self) -> bool {
        self.cancelled
    }

    /// How the session ended, once it has.
    pub closed spec fn end(self) -> Option<SessionEnd> {
        self.end
    }

    /// What holds of every session: the count stays within a known size,
    /// reaches it exactly when the session completed, and stays below it
    /// while the session runs.
    pub closed spec fn wf(self) -> bool {
        &&& self.size > 0 ==> self.transferred <= self.size
        &&& self.size > 0 && self.end == Some(SessionEnd::Completed) ==> self.transferred
            == self.size
        &&& self.size > 0 && self.end is None ==> self.transferred < self.size
    }

    /// The session after `event`. One that has ended stays as it is; one
    /// that was cancelled ends as cancelled, whatever the event; otherwise
    /// the event is counted and may end the session.
    pub closed spec fn after(self, event: IoEvent) -> Session {
        if self.end is Some {
            self
        } else if self.cancelled {
            Session { end: Some(SessionEnd::Cancelled), ..self }
        } else {
            Session {
                transferred: counted(self.size, self.transferred, event),
                end: ending(self.role, self.size, self.transferred, event),
                ..self
            }
        }
    }

    /// How the session stands after `event`: as it ended, if it had; as
    /// cancelled, if that was asked; else as the event ends it, if it does.
    pub open spec fn next_end(self, event: IoEvent) -> Option<SessionEnd> {
        if self.end() is Some {
            self.end()
        } else if self.cancelled() {
            Some(SessionEnd::Cancelled)
        } else {
            ending(self.role(), self.size(), self.transferred(), event)
        }
    }

    /// The bytes counted after `event`: only a running session that was not
    /// cancelled counts any.
    pub open spec fn next_count(self, event: IoEvent) -> u64 {
        if self.end() is Some || self.cancelled() {
            self.transferred()
        } else {
            counted(self.size(), self.transferred(), event)
        }
    }

    /// The session after each of `events` in turn.
    pub open spec fn run(self, events: Seq<IoEvent>) -> Session
        decreases events.len(),
    {
        if events.len() == 0 {
            self
        } else {
            self.after(events[0]).run(events.drop_first())
        }
    }

    /// How many bytes to ask for next: a chunk at most, no more than are
    /// still to come, and none once the session has ended.
    pub open spec fn next_request(self) -> u64 {
        if self.end() is Some {
            0
        } else if self.size() > 0 && self.size() - self.transferred() < CHUNK_SIZE {
            (self.size() - self.transferred()) as u64
        } else {
            CHUNK_SIZE
        }
    }

    /// What the caller is told after a step.
    pub open spec fn report(self) -> Step {
        match self.end() {
            Some(end) => Step::Done(end),
            None => Step::Continue { transferred: self.transferred(), request: self.next_request() },
        }
    }

    /// A session for a connection that has just been made. `size` is the
    /// declared size, zero where it is not known.
    pub fn new(role: Role, size: u64) -> (session: Session)
        ensures
            session.wf(),
            session.role() == role,
            session.size() == size,
            session.transferred() == 0,
            !session.cancelled(),
            session.end() is None,
    {
        Session { role, size, transferred: 0, cancelled: false, end: None }
    }

    /// Takes in what the last read or write came to.
    pub fn step(&mut self, event: IoEvent) -> (step: Step)
        requires
            old(self).wf(),
        ensures
            final(self).wf(),
            *final(self) == old(self).after(event),
            final(self).end() == old(self).next_end(event),
            final(self).transferred() == old(self).next_count(event),
            final(self).role() == old(self).role(),
            final(self).size() == old(self).size(),
            final(self).cancelled() == old(self).cancelled(),
            step == final(self).report(),
    {
        if self.end.is_none() {
            if self.cancelled {
                self.end = Some(SessionEnd::Cancelled);
            } else {
                match event {
                    IoEvent::Moved(count) => {
                        let limit: u64 = if self.size > 0 {
                            self.size
                        } else {
                            u64::MAX
                        };
                        if count > limit - self.transferred {
                            self.end = Some(SessionEnd::IoError);
                        } else {
                            self.transferred = self.transferred + count;
                            if self.size > 0 && self.transferred == self.size {
                                self.end = Some(SessionEnd::Completed);
                            }
                        }
                    },
                    IoEvent::Closed => {
                        self.end = Some(
                            if self.size > 0 {
                                SessionEnd::Truncated
                            } else {
                                SessionEnd::Completed
                            },
                        );
                    },
                    IoEvent::Failed => {
                        self.end = Some(SessionEnd::IoError);
                    },
                    IoEvent::Unwritable => {
                        self.end = Some(
                            match self.role {
                                Role::Receiver => SessionEnd::DestinationUnwritable,
                                Role::Sender => SessionEnd::IoError,
                            },
                        );
                    },
                }
            }
        }
        self.status()
    }

    /// Asks the session to stop. It ends, as cancelled, with the next step;
    /// one that has ended stays as it ended.
    pub fn cancel(&mut self)
        ensures
            final(self).wf() == old(self).wf(),
            final(self).cancelled() == (old(self).cancelled() || old(self).end() is None),
            final(self).role() == old(self).role(),
            final(self).size() == old(self).size(),
            final(self).transferred() == old(self).transferred(),
            final(self).end() == old(self).end(),
    {
        if self.end.is_none() {
            self.cancelled = true;
        }
    }

    /// What the caller is to do now.
    pub fn status(&self) -> (step: Step)
        requires
            self.wf(),
        ensures
            step == self.report(),
    {
        match self.end {
            Some(end) => Step::Done(end),
            None => {
                let request: u64 = if self.size > 0 && self.size - self.transferred < CHUNK_SIZE {
                    self.size - self.transferred
                } else {
                    CHUNK_SIZE
                };
                Step::Continue { transferred: self.transferred, request }
            },
        }
    }

    /// Bytes moved so far.
    pub fn bytes(&self) -> (n: u64)
        ensures
            n == self.transferred(),
    {
        self.transferred
    }

    /// How the session ended, once it has.
    pub fn outcome(&self) -> (end: Option<SessionEnd>)
        ensures
            end == self.end(),
    {
        self.end
    }
}

/// An estimate of the rate in bytes per second from the bytes moved in a
/// span of milliseconds; none for an empty span, or where the rate does not
/// fit.
pub open spec fn rate_of(bytes: u64, millis: u64) -> Option<u64> {
    if millis == 0 || bytes * 1000 / (millis as int) > u64::MAX {
        None
    } else {
        Some((bytes * 1000 / (millis as int)) as u64)
    }
}

/// Estimates the rate in bytes per second.
pub fn estimate_rate(bytes: u64, millis: u64) -> (rate: Option<u64>)
    ensures
        rate == rate_of(bytes, millis),
{
    if millis == 0 {
        return None;
    }
    let scaled: u128 = (bytes as u128) * 1000;
    let per_second: u128 = scaled / (millis as u128);
    if per_second > u64::MAX as u128 {
        None
    } else {
        Some(per_second as u64)
    }
}

/// One step of a session keeps it well formed, never lowers the count, and
/// changes neither role nor size; a session that has ended stays as it is.
pub proof fn lemma_step_is_monotone(session: Session, event: IoEvent)
    requires
        session.wf(),
    ensures
        session.after(event).wf(),
        session.after(event).end() == session.next_end(event),
        session.after(event).transferred() == session.next_count(event),
        session.after(event).transferred() >= session.transferred(),
        session.size() > 0 ==> session.after(event).transferred() <= session.size(),
        session.after(event).size() == session.size(),
        session.after(event).role() == session.role(),
        session.after(event).cancelled() == session.cancelled(),
        session.end() is Some ==> session.after(event) == session,
{
}

/// Whatever is reported, in whatever order, the count of bytes never goes
/// down and never passes a known size, and an end that was reached stays.
pub proof fn lemma_progress_is_monotone(session: Session, events: Seq<IoEvent>)
    requires
        session.wf(),
    ensures
        session.run(events).wf(),
        session.run(events).transferred() >= session.transferred(),
        session.size() > 0 ==> session.run(events).transferred() <= session.size(),
        session.run(events).size() == session.size(),
        session.end() is Some ==> session.run(events) == session,
    decreases events.len(),
{
    if events.len() > 0 {
        lemma_step_is_monotone(session, events[0]);
        lemma_progress_is_monotone(session.after(events[0]), events.drop_first());
    }
}

/// A running session of known size completes with the event that brings the
/// count to the declared size, and with no other.
pub proof fn lemma_exact_count_completes(session: Session, event: IoEvent)
    requires
        session.wf(),
        session.end() is None,
        !session.cancelled(),
        session.size() > 0,
    ensures
        session.after(event).end() == Some(SessionEnd::Completed) <==> (event matches IoEvent::Moved(
            count,
        ) && session.transferred() + count == session.size()),
{
}

/// A session of known size that has completed has counted exactly the
/// declared size.
pub proof fn lemma_completed_is_full(session: Session)
    requires
        session.wf(),
        session.size() > 0,
        session.end() == Some(SessionEnd::Completed),
    ensures
        session.transferred() == session.size(),
{
}

/// A running session of known size whose source ends cleanly is truncated:
/// fewer bytes came than were declared.
pub proof fn lemma_early_close_truncates(session: Session)
    requires
        session.wf(),
        session.end() is None,
        !session.cancelled(),
        session.size() > 0,
    ensures
        session.transferred() < session.size(),
        session.after(IoEvent::Closed).end() == Some(SessionEnd::Truncated),
        session.after(IoEvent::Closed).transferred() == session.transferred(),
{
}

/// Where the size is not known, a clean end of the source completes the
/// session.
pub proof fn lemma_close_completes_unsized(session: Session)
    requires
        session.end() is None,
        !session.cancelled(),
        session.size() == 0,
    ensures
        session.after(IoEvent::Closed).end() == Some(SessionEnd::Completed),
{
}

/// A cancelled session ends with the very next event, whatever it is, and
/// counts no byte of it; until then it never asks for more than a chunk.
pub proof fn lemma_cancel_ends_at_next_step(session: Session, event: IoEvent)
    requires
        session.wf(),
        session.end() is None,
        session.cancelled(),
    ensures
        session.after(event).end() == Some(SessionEnd::Cancelled),
        session.after(event).transferred() == session.transferred(),
        session.next_request() <= CHUNK_SIZE,
{
}

} // verus!
