//! The decisions of the server loop. The caller owns the listening socket,
//! the connection sockets and the poller; it performs each accept, read or
//! write, hands the outcome in, and carries out the action that comes back.

use vstd::prelude::*;
use crate::connection::{Event, Interest, step, interest_of, write_fits};
use crate::state::Phase;
use crate::table::{ConnectionTable, CapacityExceeded, is_fresh};

verus! {

/// How many connections the server holds at once.
pub const MAX_CONNECTIONS: usize = 1024;

/// The origin of a readiness notification: the listener, whose handle is 0,
/// or a connection.
#[derive(PartialEq, Eq, Structural, Clone, Copy, Debug)]
pub enum Token {
    Listener,
    Connection(usize),
}

impl Token {
    /// Reads a raw poller handle.
    pub fn from_raw(raw: usize) -> (r: Token)
        ensures
            raw == 0 ==> r == Token::Listener,
            raw != 0 ==> r == Token::Connection(raw),
    {
        if raw == 0 {
            Token::Listener
        } else {
            Token::Connection(raw)
        }
    }

    /// The raw poller handle.
    pub fn to_raw(&self) -> (r: usize)
        ensures
            *self == Token::Listener ==> r == 0,
            self matches Token::Connection(h) ==> r == h,
    {
        match self {
            Token::Listener => 0,
            Token::Connection(h) => *h,
        }
    }
}

/// What an accept attempt on the listener gave.
#[derive(PartialEq, Eq, Structural, Clone, Copy, Debug)]
pub enum AcceptOutcome {
    /// A new socket was accepted.
    Accepted,
    /// No connection was pending.
    NotReady,
    /// A listener error.
    Fault,
}

/// What to do after an accept attempt.
#[derive(PartialEq, Eq, Structural, Clone, Copy, Debug)]
pub enum ListenerAction {
    /// Register the new socket under this handle, for readability.
    Register(usize),
    /// The table is full: close the new socket at once.
    Reject,
    /// Wait for the next notification.
    Wait,
    /// Stop the server: no further connection can be accepted.
    Shutdown,
}

/// What to do with a connection after dispatching a notification to it:
/// re-arm it for one readiness kind, or forget it.
#[derive(PartialEq, Eq, Structural, Clone, Copy, Debug)]
pub enum Action {
    Reregister(Interest),
    Remove,
}

/// The echo server: the table of its live connections.
pub struct Pong {
    pub connections: ConnectionTable,
}

impl Pong {
    pub open spec fn wf(&self) -> bool {
        self.connections.wf()
    }

    /// A server with no connection and room for `MAX_CONNECTIONS`.
    pub fn new() -> (r: Pong)
        ensures
            r.wf(),
            r.connections@.len() == MAX_CONNECTIONS,
            r.connections.count_spec() == 0,
    {
        Pong::with_capacity(MAX_CONNECTIONS)
    }

    /// A server with no connection and room for `capacity`.
    pub fn with_capacity(capacity: usize) -> (r: Pong)
        requires
            capacity < usize::MAX,
        ensures
            r.wf(),
            r.connections@.len() == capacity,
            r.connections.count_spec() == 0,
            forall|h: int| !r.connections.contains(h),
    {
        Pong { connections: ConnectionTable::new(capacity) }
    }

    /// Decides on the outcome of an accept attempt. An accepted socket gets
    /// the lowest free handle and a fresh reading connection, or is rejected
    /// when the table is full; either way the other connections stay as they
    /// were. A listener error stops the server.
    pub fn on_accept(&mut self, outcome: AcceptOutcome) -> (r: ListenerAction)
        requires
            old(self).wf(),
        ensures
            final(self).wf(),
            final(self).connections@.len() == old(self).connections@.len(),
            match r {
                ListenerAction::Register(h) => {
                    &&& outcome == AcceptOutcome::Accepted
                    &&& old(self).connections.is_lowest_free(h as int)
                    &&& final(self).connections.contains(h as int)
                    &&& is_fresh(final(self).connections.conn(h as int), h)
                    &&& forall|k: int|
                        1 <= k <= old(self).connections@.len() && k != h
                            ==> #[trigger] final(self).connections@[k - 1]
                            == old(self).connections@[k - 1]
                },
                ListenerAction::Reject => {
                    &&& outcome == AcceptOutcome::Accepted
                    &&& old(self).connections.is_full()
                    &&& *final(self) == *old(self)
                },
                ListenerAction::Wait => outcome == AcceptOutcome::NotReady && *final(self)
                    == *old(self),
                ListenerAction::Shutdown => outcome == AcceptOutcome::Fault && *final(self)
                    == *old(self),
            },
    {
        match outcome {
            AcceptOutcome::Accepted => match self.connections.insert() {
                Ok(h) => ListenerAction::Register(h),
                Err(CapacityExceeded) => ListenerAction::Reject,
            },
            AcceptOutcome::NotReady => ListenerAction::Wait,
            AcceptOutcome::Fault => ListenerAction::Shutdown,
        }
    }

    /// Dispatches a notification to the connection with handle `h`. Ends in
    /// exactly one of: re-arming it for the readiness kind its new state
    /// wants, or removing it once closed.
    pub fn ready(&mut self, h: usize, event: Event) -> (r: Action)
        requires
            old(self).wf(),
            old(self).connections.contains(h as int),
            event matches Event::Writable(o) ==> write_fits(
                old(self).connections.conn(h as int).state@,
                o,
            ),
        ensures
            final(self).wf(),
            final(self).connections@.len() == old(self).connections@.len(),
            forall|k: int|
                1 <= k <= old(self).connections@.len() && k != h
                    ==> #[trigger] final(self).connections@[k - 1]
                    == old(self).connections@[k - 1],
            ({
                let next = step(old(self).connections.conn(h as int).state@, event);
                if next is Closed {
                    &&& r == Action::Remove
                    &&& !final(self).connections.contains(h as int)
                    &&& final(self).connections.count_spec() + 1 == old(
                        self,
                    ).connections.count_spec()
                } else {
                    &&& r == Action::Reregister(interest_of(next))
                    &&& final(self).connections.contains(h as int)
                    &&& final(self).connections.conn(h as int).state@ == next
                    &&& final(self).connections.count_spec() == old(
                        self,
                    ).connections.count_spec()
                }
            }),
    {
        let interest = self.connections.dispatch(h, event);
        if self.connections.is_closed(h) {
            let ghost s = self.connections@;
            self.connections.remove(h);
            proof {
                assert forall|k: int|
                    1 <= k <= s.len() && k != h implies #[trigger] self.connections@[k - 1]
                    == s[k - 1] by {}
            }
            Action::Remove
        } else {
            Action::Reregister(interest)
        }
    }

    /// The bytes that the connection with handle `h` has yet to send.
    pub fn pending(&self, h: usize) -> (r: Vec<u8>)
        requires
            self.wf(),
            self.connections.contains(h as int),
        ensures
            r@ == self.connections.conn(h as int).state@.pending(),
    {
        self.connections.pending(h)
    }

    /// The readiness kind the connection with handle `h` wants next.
    pub fn interest(&self, h: usize) -> (r: Interest)
        requires
            self.connections.contains(h as int),
        ensures
            r == interest_of(self.connections.conn(h as int).state@),
    {
        self.connections.interest(h)
    }

    /// Number of live connections.
    pub fn count(&self) -> (r: usize)
        requires
            self.wf(),
        ensures
            r == self.connections.count_spec(),
    {
        self.connections.count()
    }
}

} // verus!
