//! The per-connection protocol state: reading until a line terminator is
//! buffered, writing that line back, and the terminal closed state.

use vstd::prelude::*;

verus! {

/// The line terminator that delimits echo units.
pub const NEWLINE: u8 = 10;

/// `p` is the position of the first line terminator in `s`.
pub open spec fn is_first_newline(s: Seq<u8>, p: int) -> bool {
    &&& 0 <= p < s.len()
    &&& s[p] == NEWLINE
    &&& forall|j: int| 0 <= j < p ==> s[j] != NEWLINE
}

pub open spec fn has_newline(s: Seq<u8>) -> bool {
    exists|j: int| 0 <= j < s.len() && s[j] == NEWLINE
}

/// Abstract view of a connection state.
pub enum Phase {
    /// Bytes received and not yet echoed.
    Reading(Seq<u8>),
    /// The whole buffer, the end of the range being echoed, and how much of it was sent.
    Writing(Seq<u8>, nat, nat),
    Closed,
}

/// The state a reading buffer settles into: writing through its first line
/// terminator if it holds one, still reading otherwise.
pub open spec fn settle(b: Seq<u8>) -> Phase {
    if has_newline(b) {
        Phase::Writing(b, ((choose|p: int| is_first_newline(b, p)) + 1) as nat, 0)
    } else {
        Phase::Reading(b)
    }
}

impl Phase {
    /// The bytes that the connection holds and has not echoed yet.
    pub open spec fn held(self) -> Seq<u8> {
        match self {
            Phase::Reading(b) => b,
            Phase::Writing(b, _, pos) => b.subrange(pos as int, b.len() as int),
            Phase::Closed => seq![],
        }
    }

    /// A reading buffer never holds a whole line, and the range being echoed
    /// holds a line terminator at most at its end.
    pub open spec fn wf(self) -> bool {
        match self {
            Phase::Reading(b) => !has_newline(b),
            Phase::Writing(b, limit, pos) => {
                &&& pos < limit <= b.len()
                &&& forall|j: int| 0 <= j < limit - 1 ==> b[j] != NEWLINE
            },
            Phase::Closed => true,
        }
    }

    /// The bytes still to be sent in the writing state.
    pub open spec fn pending(self) -> Seq<u8> {
        match self {
            Phase::Writing(b, limit, pos) => b.subrange(pos as int, limit as int),
            _ => seq![],
        }
    }
}

pub proof fn lemma_first_newline_unique(s: Seq<u8>, p: int, q: int)
    requires
        is_first_newline(s, p),
        is_first_newline(s, q),
    ensures
        p == q,
{
}

/// Settling a buffer gives a well-formed state that holds the same bytes.
pub proof fn lemma_settle_wf(b: Seq<u8>)
    ensures
        settle(b).wf(),
        settle(b).held() == b,
{
    if has_newline(b) {
        let j = choose|j: int| 0 <= j < b.len() && b[j] == NEWLINE;
        lemma_exists_first_newline(b, j);
        let p = choose|p: int| is_first_newline(b, p);
        assert(b.subrange(0, b.len() as int) == b);
    }
}

proof fn lemma_exists_first_newline(b: Seq<u8>, j: int)
    requires
        0 <= j < b.len(),
        b[j] == NEWLINE,
    ensures
        exists|p: int| is_first_newline(b, p),
    decreases j,
{
    if exists|k: int| 0 <= k < j && b[k] == NEWLINE {
        let k = choose|k: int| 0 <= k < j && b[k] == NEWLINE;
        lemma_exists_first_newline(b, k);
    } else {
        assert(is_first_newline(b, j));
    }
}

/// Each connection is reading what the client sends, writing a line back, or
/// closed once the client is gone.
pub enum State {
    Reading(Vec<u8>),
    Writing { buf: Vec<u8>, limit: usize, pos: usize },
    Closed,
}

/// Position of the first line terminator in `buf`, if any.
pub fn find_newline(buf: &Vec<u8>) -> (r: Option<usize>)
    ensures
        match r {
            Some(p) => is_first_newline(buf@, p as int) && p < usize::MAX,
            None => !has_newline(buf@),
        },
{
    let mut i: usize = 0;
    while i < buf.len()
        invariant
            i <= buf.len(),
            forall|j: int| 0 <= j < i ==> buf@[j] != NEWLINE,
        decreases buf.len() - i,
    {
        if buf[i] == NEWLINE {
            return Some(i);
        }
        i = i + 1;
    }
    None
}

impl State {
    pub open spec fn view(&self) -> Phase {
        match self {
            State::Reading(b) => Phase::Reading(b@),
            State::Writing { buf, limit, pos } => Phase::Writing(buf@, *limit as nat, *pos as nat),
            State::Closed => Phase::Closed,
        }
    }

    pub open spec fn is_reading(&self) -> bool {
        self is Reading
    }

    pub open spec fn is_writing(&self) -> bool {
        self is Writing
    }

    /// Looks for a line terminator; if one is found, moves to writing the
    /// line that it ends.
    pub fn try_transition_to_writing(&mut self)
        requires
            old(self)@ is Reading,
        ensures
            final(self)@ == settle(old(self)@->Reading_0),
    {
        let found = match self {
            State::Reading(buf) => find_newline(buf),
            _ => None,
        };
        match found {
            Some(p) => {
                proof {
                    let b = old(self)@->Reading_0;
                    let q = choose|q: int| is_first_newline(b, q);
                    lemma_first_newline_unique(b, p as int, q);
                }
                self.transition_to_writing(p + 1);
            },
            None => {},
        }
    }

    /// Moves from reading to writing the first `limit` bytes of the buffer.
    pub fn transition_to_writing(&mut self, limit: usize)
        requires
            old(self)@ is Reading,
            0 < limit <= old(self)@->Reading_0.len(),
        ensures
            final(self)@ == Phase::Writing(old(self)@->Reading_0, limit as nat, 0),
    {
        let mut taken = State::Closed;
        std::mem::swap(self, &mut taken);
        match taken {
            State::Reading(buf) => {
                *self = State::Writing { buf, limit, pos: 0 };
            },
            _ => {},
        }
    }

    /// Once the whole range has been sent, moves back to reading with the
    /// bytes that followed it, and straight on to writing if they hold a line.
    pub fn try_transition_to_reading(&mut self)
        requires
            old(self)@ is Writing,
            old(self)@->Writing_2 <= old(self)@->Writing_1 <= old(self)@->Writing_0.len(),
        ensures
            ({
                let (b, limit, pos) = (
                    old(self)@->Writing_0,
                    old(self)@->Writing_1,
                    old(self)@->Writing_2,
                );
                if pos == limit {
                    final(self)@ == settle(b.subrange(limit as int, b.len() as int))
                } else {
                    final(self)@ == old(self)@
                }
            }),
    {
        let done = match self {
            State::Writing { limit, pos, .. } => *pos == *limit,
            _ => false,
        };
        if done {
            let mut taken = State::Closed;
            std::mem::swap(self, &mut taken);
            match taken {
                State::Writing { mut buf, limit, .. } => {
                    let rest = buf.split_off(limit);
                    *self = State::Reading(rest);
                    self.try_transition_to_writing();
                },
                _ => {},
            }
        }
    }

    /// Checks whether the state is closed.
    pub fn is_closed(&self) -> (r: bool)
        ensures
            r == (self is Closed),
    {
        match self {
            State::Closed => true,
            _ => false,
        }
    }
}

} // verus!
