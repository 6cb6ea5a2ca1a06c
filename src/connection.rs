//! One client connection: its table handle and protocol state. The socket
//! itself lives with the caller, who performs each non-blocking read or
//! write and hands the outcome in.

use vstd::prelude::*;
use crate::state::{Phase, State, NEWLINE, settle, lemma_settle_wf, has_newline};

verus! {

/// What a non-blocking read on the socket gave.
pub enum ReadOutcome {
    /// Some bytes arrived.
    Data(Vec<u8>),
    /// Nothing to read yet.
    WouldBlock,
    /// The peer closed its side; no more bytes will come.
    Ended,
    /// A socket error.
    Fault,
}

/// What a non-blocking write of the pending bytes gave.
pub enum WriteOutcome {
    /// The socket accepted this many bytes.
    Sent(usize),
    /// The socket cannot take bytes yet.
    WouldBlock,
    /// A socket error.
    Fault,
}

/// A readiness notification together with what the attempted I/O gave.
pub enum Event {
    Readable(ReadOutcome),
    Writable(WriteOutcome),
}

/// The readiness kind a connection wants to be notified of next.
#[derive(PartialEq, Eq, Structural, Clone, Copy, Debug)]
pub enum Interest {
    Readable,
    Writable,
    Nothing,
}

/// The readiness kind that a state waits for.
pub open spec fn interest_of(s: Phase) -> Interest {
    match s {
        Phase::Reading(_) => Interest::Readable,
        Phase::Writing(..) => Interest::Writable,
        Phase::Closed => Interest::Nothing,
    }
}

/// The state after a read attempt; a read in any other state changes nothing.
pub open spec fn read_step(s: Phase, o: ReadOutcome) -> Phase {
    match s {
        Phase::Reading(b) => match o {
            ReadOutcome::Data(d) => settle(b + d@),
            ReadOutcome::WouldBlock => s,
            ReadOutcome::Ended => if b.len() == 0 {
                Phase::Closed
            } else {
                Phase::Writing(b, b.len(), 0)
            },
            ReadOutcome::Fault => Phase::Closed,
        },
        _ => s,
    }
}

/// The state after a write attempt; a write in any other state changes nothing.
pub open spec fn write_step(s: Phase, o: WriteOutcome) -> Phase {
    match s {
        Phase::Writing(b, limit, pos) => match o {
            WriteOutcome::Sent(n) => if pos + n == limit {
                settle(b.subrange(limit as int, b.len() as int))
            } else {
                Phase::Writing(b, limit, (pos + n) as nat)
            },
            WriteOutcome::WouldBlock => s,
            WriteOutcome::Fault => Phase::Closed,
        },
        _ => s,
    }
}

/// The bytes that a write attempt hands to the peer.
pub open spec fn sent_by(s: Phase, o: WriteOutcome) -> Seq<u8> {
    match (s, o) {
        (Phase::Writing(..), WriteOutcome::Sent(n)) => s.pending().subrange(0, n as int),
        _ => seq![],
    }
}

/// The bytes that a read attempt takes in.
pub open spec fn received_by(s: Phase, o: ReadOutcome) -> Seq<u8> {
    match (s, o) {
        (Phase::Reading(_), ReadOutcome::Data(d)) => d@,
        _ => seq![],
    }
}

/// A write outcome that the socket could have given for the pending bytes.
pub open spec fn write_fits(s: Phase, o: WriteOutcome) -> bool {
    match (s, o) {
        (Phase::Writing(..), WriteOutcome::Sent(n)) => n <= s.pending().len(),
        _ => true,
    }
}

/// Represents a client connection on the server.
pub struct Connection {
    pub token: usize,
    pub state: State,
    /// Every byte received so far.
    pub received: Ghost<Seq<u8>>,
    /// Every byte echoed so far.
    pub echoed: Ghost<Seq<u8>>,
    /// Whether a socket error closed the connection.
    pub faulted: Ghost<bool>,
}

impl Connection {
    /// Nothing is lost or reordered: what was echoed followed by what is held
    /// is what was received, unless a socket error closed the connection.
    pub open spec fn wf(&self) -> bool {
        &&& self.state@.wf()
        &&& !self.faulted@ ==> self.echoed@ + self.state@.held() == self.received@
        &&& self.faulted@ ==> self.state@ is Closed
    }

    /// Builds a new connection for a table handle, in the reading state.
    pub fn new(token: usize) -> (r: Connection)
        ensures
            r.wf(),
            r.token == token,
            r.state@ == Phase::Reading(seq![]),
            r.received@ == Seq::<u8>::empty(),
            r.echoed@ == Seq::<u8>::empty(),
            !r.faulted@,
    {
        let r = Connection {
            token,
            state: State::Reading(Vec::new()),
            received: Ghost(Seq::empty()),
            echoed: Ghost(Seq::empty()),
            faulted: Ghost(false),
        };
        proof {
            assert(!has_newline(r.state@->Reading_0));
            assert(r.echoed@ + r.state@.held() =~= r.received@);
        }
        r
    }

    /// The readiness kind this connection wants next, from its state.
    pub fn get_event_set(&self) -> (r: Interest)
        ensures
            r == interest_of(self.state@),
    {
        match self.state {
            State::Reading(_) => Interest::Readable,
            State::Writing { .. } => Interest::Writable,
            State::Closed => Interest::Nothing,
        }
    }

    /// Checks whether this connection is closed.
    pub fn is_closed(&self) -> (r: bool)
        ensures
            r == (self.state@ is Closed),
    {
        self.state.is_closed()
    }

    /// A copy of the bytes still to be sent; empty unless writing.
    pub fn pending(&self) -> (r: Vec<u8>)
        requires
            self.wf(),
        ensures
            r@ == self.state@.pending(),
    {
        let mut out: Vec<u8> = Vec::new();
        match &self.state {
            State::Writing { buf, limit, pos } => {
                let mut i: usize = *pos;
                while i < *limit
                    invariant
                        *pos <= i <= *limit <= buf@.len(),
                        out@ == buf@.subrange(*pos as int, i as int),
                    decreases *limit - i,
                {
                    out.push(buf[i]);
                    assert(out@ =~= buf@.subrange(*pos as int, i + 1));
                    i = i + 1;
                }
            },
            _ => {},
        }
        out
    }

    /// Takes in the outcome of a read attempt and moves the state on.
    /// Returns the readiness kind to re-register for.
    pub fn read(&mut self, outcome: ReadOutcome) -> (r: Interest)
        requires
            old(self).wf(),
        ensures
            final(self).wf(),
            final(self).token == old(self).token,
            final(self).state@ == read_step(old(self).state@, outcome),
            final(self).received@ == old(self).received@ + received_by(old(self).state@, outcome),
            final(self).echoed@ == old(self).echoed@,
            final(self).faulted@ == (old(self).faulted@ || (old(self).state@ is Reading
                && outcome is Fault)),
            r == interest_of(final(self).state@),
    {
        if let State::Reading(_) = self.state {
            match outcome {
                ReadOutcome::Data(d) => {
                    let ghost b = self.state@->Reading_0;
                    match &mut self.state {
                        State::Reading(buf) => buf.extend_from_slice(d.as_slice()),
                        _ => {},
                    }
                    assert(self.state@->Reading_0 =~= b + d@);
                    self.received = Ghost(self.received@ + d@);
                    self.state.try_transition_to_writing();
                    proof {
                        lemma_settle_wf(b + d@);
                        assert(self.echoed@ + (b + d@) =~= (self.echoed@ + b) + d@);
                    }
                },
                ReadOutcome::WouldBlock => {},
                ReadOutcome::Ended => {
                    let n = match &self.state {
                        State::Reading(buf) => buf.len(),
                        _ => 0,
                    };
                    if n > 0 {
                        let ghost b = self.state@->Reading_0;
                        self.state.transition_to_writing(n);
                        proof {
                            assert(b.subrange(0, b.len() as int) =~= b);
                            assert forall|j: int| 0 <= j < b.len() - 1 implies b[j] != NEWLINE by {
                                if b[j] == NEWLINE {
                                    assert(has_newline(b));
                                }
                            }
                        }
                    } else {
                        self.state = State::Closed;
                        proof {
                            assert(self.echoed@ + seq![] =~= self.echoed@);
                        }
                    }
                },
                ReadOutcome::Fault => {
                    self.state = State::Closed;
                    self.faulted = Ghost(true);
                },
            }
        }
        self.get_event_set()
    }

    /// Takes in the outcome of a write attempt of the pending bytes and moves
    /// the state on. Returns the readiness kind to re-register for.
    pub fn write(&mut self, outcome: WriteOutcome) -> (r: Interest)
        requires
            old(self).wf(),
            write_fits(old(self).state@, outcome),
        ensures
            final(self).wf(),
            final(self).token == old(self).token,
            final(self).state@ == write_step(old(self).state@, outcome),
            final(self).echoed@ == old(self).echoed@ + sent_by(old(self).state@, outcome),
            final(self).received@ == old(self).received@,
            final(self).faulted@ == (old(self).faulted@ || (old(self).state@ is Writing
                && outcome is Fault)),
            r == interest_of(final(self).state@),
    {
        if let State::Writing { .. } = self.state {
            match outcome {
                WriteOutcome::Sent(n) => {
                    let ghost (b, limit, pos) = (
                        self.state@->Writing_0,
                        self.state@->Writing_1,
                        self.state@->Writing_2,
                    );
                    match &mut self.state {
                        State::Writing { pos, .. } => *pos = *pos + n,
                        _ => {},
                    }
                    self.echoed = Ghost(self.echoed@ + b.subrange(pos as int, pos + n));
                    self.state.try_transition_to_reading();
                    proof {
                        let e = old(self).echoed@;
                        assert(b.subrange(pos as int, limit as int).subrange(0, n as int)
                            =~= b.subrange(pos as int, pos + n));
                        assert(e + b.subrange(pos as int, b.len() as int) =~= (e + b.subrange(
                            pos as int,
                            pos + n,
                        )) + b.subrange(pos + n, b.len() as int));
                        if pos + n == limit {
                            lemma_settle_wf(b.subrange(limit as int, b.len() as int));
                        }
                    }
                },
                WriteOutcome::WouldBlock => {},
                WriteOutcome::Fault => {
                    self.state = State::Closed;
                    self.faulted = Ghost(true);
                },
            }
        }
        self.get_event_set()
    }

    /// Called whenever a readiness notification for this connection arrives,
    /// with what the matching I/O attempt gave.
    pub fn ready(&mut self, event: Event) -> (r: Interest)
        requires
            old(self).wf(),
            event matches Event::Writable(o) ==> write_fits(old(self).state@, o),
        ensures
            final(self).wf(),
            final(self).token == old(self).token,
            final(self).state@ == step(old(self).state@, event),
            r == interest_of(final(self).state@),
    {
        match event {
            Event::Readable(o) => self.read(o),
            Event::Writable(o) => self.write(o),
        }
    }
}

/// Whatever chunks the bytes arrived in, what was echoed followed by what
/// the connection still holds is exactly what it received, in order; once it
/// closed without a socket error, every received byte was echoed.
pub proof fn lemma_round_trip(c: &Connection)
    requires
        c.wf(),
        !c.faulted@,
    ensures
        c.echoed@ + c.state@.held() == c.received@,
        c.state@ is Closed ==> c.echoed@ == c.received@,
{
    if c.state@ is Closed {
        assert(c.echoed@ + c.state@.held() =~= c.echoed@);
    }
}

/// Line boundaries are kept: every range handed out for writing holds a line
/// terminator at most as its last byte.
pub proof fn lemma_one_line_per_write(s: Phase)
    requires
        s.wf(),
    ensures
        forall|j: int| 0 <= j < s.pending().len() - 1 ==> s.pending()[j] != NEWLINE,
{
    if let Phase::Writing(b, limit, pos) = s {
        assert forall|j: int| 0 <= j < s.pending().len() - 1 implies s.pending()[j] != NEWLINE by {
            assert(s.pending()[j] == b[pos + j]);
        }
    }
}

/// Whatever the outcome of a read or write attempt, a well-formed state
/// steps to a well-formed state.
pub proof fn lemma_step_wf(s: Phase, e: Event)
    requires
        s.wf(),
        e matches Event::Writable(o) ==> write_fits(s, o),
    ensures
        step(s, e).wf(),
{
    match (s, e) {
        (Phase::Reading(b), Event::Readable(ReadOutcome::Data(d))) => {
            lemma_settle_wf(b + d@);
        },
        (Phase::Reading(b), Event::Readable(ReadOutcome::Ended)) => {
            assert forall|j: int| 0 <= j < b.len() - 1 implies b[j] != NEWLINE by {
                if b[j] == NEWLINE {
                    assert(has_newline(b));
                }
            }
        },
        (Phase::Writing(b, limit, pos), Event::Writable(WriteOutcome::Sent(n))) => {
            if pos + n == limit {
                lemma_settle_wf(b.subrange(limit as int, b.len() as int));
            }
        },
        _ => {},
    }
}

/// The state after a readiness notification.
pub open spec fn step(s: Phase, e: Event) -> Phase {
    match e {
        Event::Readable(o) => read_step(s, o),
        Event::Writable(o) => write_step(s, o),
    }
}

} // verus!
