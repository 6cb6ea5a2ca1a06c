//! Seat and fork bookkeeping for a table of philosophers. Waiting, eating
//! and the threads that do it belong to the caller.

use vstd::prelude::*;

verus! {

pub struct Philosopher {
    pub name: String,
    pub left_handed: bool,
}

impl Philosopher {
    pub fn new(name: &str, left_handed: bool) -> (r: Philosopher)
        ensures
            r.name@ == name@,
            r.left_handed == left_handed,
    {
        Philosopher { name: String::from_str(name), left_handed }
    }

    /// The forks in the order this philosopher picks them up: the seat's own
    /// fork, then the neighbour's; the other way round when left-handed.
    pub fn fork_order(&self, seat: &Seat) -> (r: (usize, usize))
        requires
            seat.index < seat.forks,
        ensures
            !self.left_handed ==> r == (seat.index, ((seat.index + 1) % (seat.forks as int)) as usize),
            self.left_handed ==> r == (((seat.index + 1) % (seat.forks as int)) as usize, seat.index),
    {
        let own = seat.index;
        let next = seat.neighbor_index();
        if self.left_handed {
            (next, own)
        } else {
            (own, next)
        }
    }
}

/// A place taken at a table of `forks` seats.
#[derive(PartialEq, Eq, Structural, Clone, Copy, Debug)]
pub struct Seat {
    pub index: usize,
    pub forks: usize,
}

impl Seat {
    /// The seat to the right, wrapping round the table.
    pub fn neighbor_index(&self) -> (r: usize)
        requires
            self.index < self.forks,
        ensures
            r == (self.index + 1) % (self.forks as int),
    {
        (self.index + 1) % self.forks
    }
}

/// Which seats are taken and which forks are held.
pub struct Table {
    seats: Vec<bool>,
    forks: Vec<bool>,
}

impl Table {
    pub closed spec fn seats(&self) -> Seq<bool> {
        self.seats@
    }

    pub closed spec fn forks(&self) -> Seq<bool> {
        self.forks@
    }

    pub open spec fn wf(&self) -> bool {
        self.seats().len() == self.forks().len()
    }

    /// A table with `seats_count` free seats and as many free forks.
    pub fn new(seats_count: usize) -> (r: Table)
        ensures
            r.wf(),
            r.seats() == Seq::new(seats_count as nat, |i: int| false),
            r.forks() == Seq::new(seats_count as nat, |i: int| false),
    {
        let mut seats: Vec<bool> = Vec::new();
        let mut forks: Vec<bool> = Vec::new();
        let mut i: usize = 0;
        while i < seats_count
            invariant
                i <= seats_count,
                seats@ == Seq::new(i as nat, |j: int| false),
                forks@ == Seq::new(i as nat, |j: int| false),
            decreases seats_count - i,
        {
            seats.push(false);
            forks.push(false);
            assert(seats@ =~= Seq::new((i + 1) as nat, |j: int| false));
            assert(forks@ =~= Seq::new((i + 1) as nat, |j: int| false));
            i = i + 1;
        }
        Table { seats, forks }
    }

    /// Takes the lowest free seat, or gives `None` when every seat is taken.
    pub fn sit(&mut self) -> (r: Option<Seat>)
        requires
            old(self).wf(),
        ensures
            final(self).wf(),
            final(self).forks() == old(self).forks(),
            match r {
                Some(s) => {
                    &&& s.index < old(self).seats().len()
                    &&& s.forks == old(self).forks().len()
                    &&& !old(self).seats()[s.index as int]
                    &&& forall|j: int| 0 <= j < s.index ==> old(self).seats()[j]
                    &&& final(self).seats() == old(self).seats().update(s.index as int, true)
                },
                None => {
                    &&& forall|j: int| 0 <= j < old(self).seats().len() ==> old(self).seats()[j]
                    &&& final(self).seats() == old(self).seats()
                },
            },
    {
        let mut i: usize = 0;
        while i < self.seats.len()
            invariant
                *self == *old(self),
                self.wf(),
                i <= self.seats@.len(),
                forall|j: int| 0 <= j < i ==> self.seats@[j],
            decreases self.seats@.len() - i,
        {
            if !self.seats[i] {
                self.seats.set(i, true);
                return Some(Seat { index: i, forks: self.forks.len() });
            }
            i = i + 1;
        }
        None
    }

    /// Frees a seat.
    pub fn leave(&mut self, seat: Seat)
        requires
            old(self).wf(),
            seat.index < old(self).seats().len(),
        ensures
            final(self).wf(),
            final(self).forks() == old(self).forks(),
            final(self).seats() == old(self).seats().update(seat.index as int, false),
    {
        self.seats.set(seat.index, false);
    }

    /// Picks up fork `index` if nobody holds it. Returns whether it was
    /// picked up; a held fork stays as it was.
    pub fn take_fork(&mut self, index: usize) -> (r: bool)
        requires
            old(self).wf(),
            index < old(self).forks().len(),
        ensures
            final(self).wf(),
            final(self).seats() == old(self).seats(),
            r == !old(self).forks()[index as int],
            final(self).forks() == old(self).forks().update(index as int, true),
    {
        if self.forks[index] {
            proof {
                assert(self.forks@.update(index as int, true) =~= self.forks@);
            }
            false
        } else {
            self.forks.set(index, true);
            true
        }
    }

    /// Puts fork `index` back on the table.
    pub fn put_fork(&mut self, index: usize)
        requires
            old(self).wf(),
            index < old(self).forks().len(),
        ensures
            final(self).wf(),
            final(self).seats() == old(self).seats(),
            final(self).forks() == old(self).forks().update(index as int, false),
    {
        self.forks.set(index, false);
    }

    /// Number of seats, and of forks.
    pub fn len(&self) -> (r: usize)
        ensures
            r == self.forks().len(),
    {
        self.forks.len()
    }
}

} // verus!
