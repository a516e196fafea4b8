//! The life of one connection: its phases and what each read leads to.

use crate::protocol::{
    acknowledgement, answers, authenticate, rejection, respond, verdict_of, Event, Incoming,
    Verdict,
};
use vstd::prelude::*;
use vstd::string::*;

verus! {

/// Where a connection stands.
#[derive(Clone, Copy, Debug, PartialEq, Eq, Structural)]
pub enum Phase {
    /// Nothing has been read yet; only a token is expected.
    Unauthenticated,
    /// The token matched; commands are served.
    Authenticated,
    /// The connection is over. Nothing leads out of this phase.
    Closed,
}

/// What the program that owns the connection has to do after a read.
#[derive(Clone, Debug, PartialEq, Eq)]
pub enum Action {
    /// The token matched: write the text in full, then read again.
    Acknowledge(String),
    /// The token did not match: write the text, shut both directions down,
    /// and stop.
    Reject(String),
    /// No token was presented: shut both directions down without writing,
    /// and stop.
    Abandon,
    /// A command was served: write the text in full, then read again.
    Reply(String),
    /// The peer has closed in good order: stop without writing.
    Hangup,
    /// A read failed on an open connection: write nothing and read again.
    Ignore,
}

/// An [`Action`] as a mathematical value.
pub enum Duty {
    Acknowledge(Seq<char>),
    Reject(Seq<char>),
    Abandon,
    Reply(Seq<char>),
    Hangup,
    Ignore,
}

impl View for Action {
    type V = Duty;

    open spec fn view(&self) -> Duty {
        match self {
            Action::Acknowledge(text) => Duty::Acknowledge(text@),
            Action::Reject(text) => Duty::Reject(text@),
            Action::Abandon => Duty::Abandon,
            Action::Reply(text) => Duty::Reply(text@),
            Action::Hangup => Duty::Hangup,
            Action::Ignore => Duty::Ignore,
        }
    }
}

/// The phase that follows `phase` once `event` has been read.
///
/// Only a matching token leads to [`Phase::Authenticated`], and only from
/// [`Phase::Unauthenticated`]; any other first read closes the connection,
/// one that brought nothing included.
/// An authenticated connection closes on a read of no bytes and stays open
/// on everything else, a failed read included.
pub open spec fn next_phase(phase: Phase, event: Event, secret: Seq<char>) -> Phase {
    match phase {
        Phase::Unauthenticated => match verdict_of(event, secret) {
            Verdict::Accepted => Phase::Authenticated,
            _ => Phase::Closed,
        },
        Phase::Authenticated => match event {
            Event::Chunk(bytes) => if bytes.len() == 0 {
                Phase::Closed
            } else {
                Phase::Authenticated
            },
            Event::Failed => Phase::Authenticated,
        },
        Phase::Closed => Phase::Closed,
    }
}

/// The phase of a connection on which `events` have been read, in this order,
/// since it was accepted.
pub open spec fn phase_after(events: Seq<Event>, secret: Seq<char>) -> Phase
    decreases events.len(),
{
    if events.len() == 0 {
        Phase::Unauthenticated
    } else {
        next_phase(phase_after(events.drop_last(), secret), events.last(), secret)
    }
}

/// Whether `duty` is what a read of `event` in `phase` calls for.
///
/// All is fixed but the time that a pong reports.
pub open spec fn permits(phase: Phase, event: Event, secret: Seq<char>, duty: Duty) -> bool {
    match phase {
        Phase::Unauthenticated => match verdict_of(event, secret) {
            Verdict::Accepted => duty == Duty::Acknowledge(acknowledgement()),
            Verdict::Rejected => duty == Duty::Reject(rejection()),
            Verdict::Unreadable => duty == Duty::Abandon,
        },
        Phase::Authenticated => match event {
            Event::Chunk(bytes) => if bytes.len() == 0 {
                duty == Duty::Hangup
            } else {
                duty matches Duty::Reply(text) && answers(bytes, text)
            },
            Event::Failed => duty == Duty::Ignore,
        },
        Phase::Closed => duty == Duty::Hangup,
    }
}

/// The state of one connection: its phase and nothing else.
#[derive(Debug)]
pub struct Session {
    phase: Phase,
}

impl View for Session {
    type V = Phase;

    closed spec fn view(&self) -> Phase {
        self.phase
    }
}

impl Session {
    /// A connection that has just been accepted.
    pub fn new() -> (session: Session)
        ensures
            session@ == Phase::Unauthenticated,
    {
        Session { phase: Phase::Unauthenticated }
    }

    /// The phase the connection is in.
    pub fn phase(&self) -> (phase: Phase)
        ensures
            phase == self@,
    {
        self.phase
    }

    /// Takes what one read brought, moves to the next phase, and says what
    /// to do on the connection.
    pub fn step(&mut self, incoming: &Incoming, auth_token: &String) -> (action: Action)
        ensures
            final(self)@ == next_phase(old(self)@, incoming@, auth_token@),
            permits(old(self)@, incoming@, auth_token@, action@),
    {
        match self.phase {
            Phase::Unauthenticated => match authenticate(incoming, auth_token) {
                Verdict::Accepted => {
                    self.phase = Phase::Authenticated;
                    Action::Acknowledge(String::from_str("Authenticated\n"))
                },
                Verdict::Rejected => {
                    self.phase = Phase::Closed;
                    Action::Reject(String::from_str("Invalid authentication token!\n"))
                },
                Verdict::Unreadable => {
                    self.phase = Phase::Closed;
                    Action::Abandon
                },
            },
            Phase::Authenticated => match incoming {
                Incoming::Chunk(bytes) => {
                    if bytes.len() == 0 {
                        self.phase = Phase::Closed;
                        Action::Hangup
                    } else {
                        Action::Reply(respond(bytes.as_slice()))
                    }
                },
                Incoming::Failed => Action::Ignore,
            },
            Phase::Closed => Action::Hangup,
        }
    }
}

} // verus!
