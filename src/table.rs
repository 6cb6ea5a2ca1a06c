//! A fixed-capacity registry of live connections, keyed by small integer
//! handles. Handle 0 belongs to the listener and is never handed out.

use vstd::prelude::*;
use crate::connection::{Connection, Event, Interest, step, interest_of, write_fits};
use crate::state::Phase;

verus! {

/// The table had no free handle.
#[derive(PartialEq, Eq, Structural, Clone, Copy, Debug)]
pub struct CapacityExceeded;

pub open spec fn occupied(o: Option<Connection>) -> nat {
    if o is Some {
        1
    } else {
        0
    }
}

/// Number of occupied slots.
pub open spec fn live(s: Seq<Option<Connection>>) -> nat
    decreases s.len(),
{
    if s.len() == 0 {
        0
    } else {
        live(s.drop_last()) + occupied(s.last())
    }
}

pub proof fn lemma_live_update(s: Seq<Option<Connection>>, i: int, v: Option<Connection>)
    requires
        0 <= i < s.len(),
    ensures
        live(s.update(i, v)) + occupied(s[i]) == live(s) + occupied(v),
    decreases s.len(),
{
    let u = s.update(i, v);
    if i == s.len() - 1 {
        assert(u.drop_last() =~= s.drop_last());
    } else {
        assert(u.drop_last() =~= s.drop_last().update(i, v));
        lemma_live_update(s.drop_last(), i, v);
    }
}

/// At most every slot is occupied, and all are exactly when the count says so.
pub proof fn lemma_live_bound(s: Seq<Option<Connection>>)
    ensures
        live(s) <= s.len(),
        live(s) == s.len() <==> forall|i: int| 0 <= i < s.len() ==> s[i] is Some,
    decreases s.len(),
{
    if s.len() > 0 {
        lemma_live_bound(s.drop_last());
        if live(s) == s.len() {
            assert forall|i: int| 0 <= i < s.len() implies s[i] is Some by {
                if i < s.len() - 1 {
                    assert(s[i] == s.drop_last()[i]);
                }
            }
        }
        if forall|i: int| 0 <= i < s.len() ==> s[i] is Some {
            assert forall|i: int| 0 <= i < s.drop_last().len() implies s.drop_last()[i] is Some by {
                assert(s[i] is Some);
            }
        }
    }
}

pub proof fn lemma_live_none(n: nat)
    ensures
        live(Seq::new(n, |i: int| None::<Connection>)) == 0,
    decreases n,
{
    if n > 0 {
        assert(Seq::new(n, |i: int| None::<Connection>).drop_last() =~= Seq::new(
            (n - 1) as nat,
            |i: int| None::<Connection>,
        ));
        lemma_live_none((n - 1) as nat);
    }
}

/// A connection as the table creates it for handle `h`.
pub open spec fn is_fresh(c: Connection, h: usize) -> bool {
    &&& c.wf()
    &&& c.token == h
    &&& c.state@ == Phase::Reading(seq![])
    &&& c.received@ == Seq::<u8>::empty()
    &&& c.echoed@ == Seq::<u8>::empty()
    &&& !c.faulted@
}

/// Owns every live connection. Slot `i` holds the connection with handle `i + 1`.
pub struct ConnectionTable {
    slots: Vec<Option<Connection>>,
    count: usize,
}

impl ConnectionTable {
    /// The slots, by handle minus one.
    pub closed spec fn view(&self) -> Seq<Option<Connection>> {
        self.slots@
    }

    pub closed spec fn wf(&self) -> bool {
        &&& self.count == live(self.slots@)
        &&& self.slots@.len() < usize::MAX
        &&& forall|i: int|
            0 <= i < self.slots@.len() && #[trigger] self.slots@[i] is Some ==> {
                &&& self.slots@[i]->Some_0.wf()
                &&& self.slots@[i]->Some_0.token == i + 1
            }
    }

    pub open spec fn capacity_spec(&self) -> nat {
        self@.len()
    }

    /// `h` is the handle of a live connection.
    pub open spec fn contains(&self, h: int) -> bool {
        1 <= h <= self@.len() && self@[h - 1] is Some
    }

    /// The live connection with handle `h`.
    pub open spec fn conn(&self, h: int) -> Connection {
        self@[h - 1]->Some_0
    }

    pub open spec fn is_lowest_free(&self, h: int) -> bool {
        &&& 1 <= h <= self@.len()
        &&& !self.contains(h)
        &&& forall|k: int| 1 <= k < h ==> self.contains(k)
    }

    pub open spec fn is_full(&self) -> bool {
        forall|k: int| 1 <= k <= self@.len() ==> self.contains(k)
    }

    /// The table is full exactly when it holds as many connections as its
    /// capacity; only then is an insertion rejected.
    pub proof fn lemma_full_iff_at_capacity(&self)
        requires
            self.wf(),
        ensures
            self.is_full() <==> self.count_spec() == self.capacity_spec(),
    {
        let s = self@;
        lemma_live_bound(s);
        if self.is_full() {
            assert forall|i: int| 0 <= i < s.len() implies s[i] is Some by {
                assert(self.contains(i + 1));
            }
        }
    }

    /// Every live connection is well formed and carries its own handle.
    pub proof fn lemma_wf_conn(&self, h: int)
        requires
            self.wf(),
            self.contains(h),
        ensures
            self.conn(h).wf(),
            self.conn(h).token == h,
    {
        reveal(ConnectionTable::view);
        reveal(ConnectionTable::wf);
        assert(self.slots@[h - 1] is Some);
    }

    /// An empty table with room for `capacity` connections, with handles
    /// `1..=capacity`.
    pub fn new(capacity: usize) -> (r: ConnectionTable)
        requires
            capacity < usize::MAX,
        ensures
            r.wf(),
            r@.len() == capacity,
            forall|h: int| !r.contains(h),
            r.count_spec() == 0,
    {
        let mut slots: Vec<Option<Connection>> = Vec::new();
        let mut i: usize = 0;
        while i < capacity
            invariant
                i <= capacity,
                slots@ == Seq::new(i as nat, |j: int| None::<Connection>),
            decreases capacity - i,
        {
            slots.push(None);
            assert(slots@ =~= Seq::new((i + 1) as nat, |j: int| None::<Connection>));
            i = i + 1;
        }
        proof {
            lemma_live_none(capacity as nat);
        }
        ConnectionTable { slots, count: 0 }
    }

    pub open spec fn count_spec(&self) -> nat {
        live(self@)
    }

    /// Number of live connections.
    pub fn count(&self) -> (r: usize)
        requires
            self.wf(),
        ensures
            r == self.count_spec(),
    {
        self.count
    }

    /// The fixed bound on live connections.
    pub fn capacity(&self) -> (r: usize)
        ensures
            r == self.capacity_spec(),
    {
        self.slots.len()
    }

    /// Whether `h` is the handle of a live connection.
    pub fn has(&self, h: usize) -> (r: bool)
        ensures
            r == self.contains(h as int),
    {
        h >= 1 && h <= self.slots.len() && self.slots[h - 1].is_some()
    }

    /// Allocates the lowest free handle and stores a new reading connection
    /// under it. Fails, leaving the table as it was, when every handle is taken.
    pub fn insert(&mut self) -> (r: Result<usize, CapacityExceeded>)
        requires
            old(self).wf(),
        ensures
            final(self).wf(),
            final(self)@.len() == old(self)@.len(),
            match r {
                Ok(h) => {
                    &&& old(self).is_lowest_free(h as int)
                    &&& final(self).contains(h as int)
                    &&& is_fresh(final(self).conn(h as int), h)
                    &&& forall|k: int| 1 <= k <= old(self)@.len() && k != h ==> #[trigger] final(self)@[k - 1] == old(self)@[k - 1]
                    &&& final(self).count_spec() == old(self).count_spec() + 1
                },
                Err(_) => old(self).is_full() && *final(self) == *old(self),
            },
    {
        let mut i: usize = 0;
        while i < self.slots.len()
            invariant
                *self == *old(self),
                self.wf(),
                i <= self.slots@.len(),
                forall|k: int| 0 <= k < i ==> self.slots@[k] is Some,
            decreases self.slots@.len() - i,
        {
            if self.slots[i].is_none() {
                let h = i + 1;
                let ghost s = self.slots@;
                let c = Connection::new(h);
                proof {
                    lemma_live_update(s, i as int, Some(c));
                    lemma_live_bound(s.update(i as int, Some(c)));
                }
                self.slots.set(i, Some(c));
                self.count = self.count + 1;
                proof {
                    reveal(ConnectionTable::view);
                    assert forall|k: int| 1 <= k <= s.len() && k != h implies #[trigger] self.slots@[k - 1] == s[k - 1] by {}
                }
                return Ok(h);
            }
            i = i + 1;
        }
        proof {
            reveal(ConnectionTable::view);
        }
        Err(CapacityExceeded)
    }

    /// Deletes the connection with handle `h`, freeing the handle.
    pub fn remove(&mut self, h: usize)
        requires
            old(self).wf(),
            old(self).contains(h as int),
        ensures
            final(self).wf(),
            final(self)@ == old(self)@.update(h - 1, None),
            final(self).count_spec() + 1 == old(self).count_spec(),
    {
        let ghost s = self.slots@;
        proof {
            reveal(ConnectionTable::view);
            lemma_live_update(s, h - 1, None);
        }
        self.slots.set(h - 1, None);
        self.count = self.count - 1;
    }

    /// Hands a readiness notification to the connection with handle `h`.
    /// Returns the readiness kind it wants next.
    pub fn dispatch(&mut self, h: usize, event: Event) -> (r: Interest)
        requires
            old(self).wf(),
            old(self).contains(h as int),
            event matches Event::Writable(o) ==> write_fits(old(self).conn(h as int).state@, o),
        ensures
            final(self).wf(),
            final(self).contains(h as int),
            final(self)@.len() == old(self)@.len(),
            forall|k: int| 1 <= k <= old(self)@.len() && k != h ==> #[trigger] final(self)@[k - 1] == old(self)@[k - 1],
            final(self).conn(h as int).state@ == step(old(self).conn(h as int).state@, event),
            r == interest_of(final(self).conn(h as int).state@),
            final(self).count_spec() == old(self).count_spec(),
    {
        proof {
            reveal(ConnectionTable::view);
            self.lemma_wf_conn(h as int);
        }
        let ghost s = self.slots@;
        let i = h - 1;
        let r = match &mut self.slots[i] {
            Some(c) => c.ready(event),
            None => Interest::Nothing,
        };
        proof {
            lemma_live_update(s, i as int, self.slots@[i as int]);
            assert forall|k: int| 1 <= k <= s.len() && k != h implies #[trigger] self.slots@[k - 1] == s[k - 1] by {}
        }
        r
    }

    /// The readiness kind the connection with handle `h` wants next.
    pub fn interest(&self, h: usize) -> (r: Interest)
        requires
            self.contains(h as int),
        ensures
            r == interest_of(self.conn(h as int).state@),
    {
        proof {
            reveal(ConnectionTable::view);
        }
        match &self.slots[h - 1] {
            Some(c) => c.get_event_set(),
            None => Interest::Nothing,
        }
    }

    /// Whether the connection with handle `h` is closed.
    pub fn is_closed(&self, h: usize) -> (r: bool)
        requires
            self.contains(h as int),
        ensures
            r == (self.conn(h as int).state@ is Closed),
    {
        proof {
            reveal(ConnectionTable::view);
        }
        match &self.slots[h - 1] {
            Some(c) => c.is_closed(),
            None => true,
        }
    }

    /// The bytes that the connection with handle `h` has yet to send.
    pub fn pending(&self, h: usize) -> (r: Vec<u8>)
        requires
            self.wf(),
            self.contains(h as int),
        ensures
            r@ == self.conn(h as int).state@.pending(),
    {
        proof {
            self.lemma_wf_conn(h as int);
            reveal(ConnectionTable::view);
        }
        match &self.slots[h - 1] {
            Some(c) => c.pending(),
            None => Vec::new(),
        }
    }
}

} // verus!
