//! The drainable holder: a bounded counter with a finite budget of steps.

use vstd::prelude::*;
use crate::bint::Bint;
use crate::cell::BintCell;
use crate::modular::{wrap_down_by, wrap_up_by};

verus! {

/// One stepping call on a drainable holder.
pub enum Step {
    Up,
    Down,
}

/// What a drainable holder stands for: the bounded value it holds and the
/// number of steps it still permits.
pub struct DrainState {
    pub bint: Bint,
    pub capacity: nat,
}

impl DrainState {
    /// The state after an attempt to take one unit of budget: one unit less,
    /// or the same state where none was left. The value does not move.
    pub open spec fn drain(self) -> DrainState {
        if self.capacity == 0 {
            self
        } else {
            DrainState { bint: self.bint, capacity: (self.capacity - 1) as nat }
        }
    }

    /// The state after an attempt to step up: with budget left, one unit is
    /// spent and the value steps up; without, nothing changes.
    pub open spec fn up(self) -> DrainState {
        if self.capacity == 0 {
            self
        } else {
            DrainState { bint: self.bint.spec_up(), capacity: (self.capacity - 1) as nat }
        }
    }

    /// The state after an attempt to step down: with budget left, one unit
    /// is spent and the value steps down; without, nothing changes.
    pub open spec fn down(self) -> DrainState {
        if self.capacity == 0 {
            self
        } else {
            DrainState { bint: self.bint.spec_down(), capacity: (self.capacity - 1) as nat }
        }
    }

    /// The state after one stepping call of the given kind.
    pub open spec fn step(self, s: Step) -> DrainState {
        match s {
            Step::Up => self.up(),
            Step::Down => self.down(),
        }
    }

    /// What one stepping call of the given kind returns: the new count, or
    /// nothing where the budget is spent.
    pub open spec fn outcome(self, s: Step) -> Option<u8> {
        if self.capacity == 0 {
            None
        } else {
            Some(self.step(s).bint.value)
        }
    }

    /// The state after the given stepping calls, made in order.
    pub open spec fn run(self, steps: Seq<Step>) -> DrainState
        decreases steps.len(),
    {
        if steps.len() == 0 {
            self
        } else {
            self.run(steps.drop_last()).step(steps.last())
        }
    }

    /// The state after `n` successive attempts to step up.
    pub open spec fn up_by(self, n: nat) -> DrainState
        decreases n,
    {
        if n == 0 {
            self
        } else {
            self.up_by((n - 1) as nat).up()
        }
    }

    /// The state after `n` successive attempts to step down.
    pub open spec fn down_by(self, n: nat) -> DrainState
        decreases n,
    {
        if n == 0 {
            self
        } else {
            self.down_by((n - 1) as nat).down()
        }
    }

    /// The number of attempts, out of `n`, that the budget covers.
    pub open spec fn covered(self, n: nat) -> nat {
        if n <= self.capacity {
            n
        } else {
            self.capacity
        }
    }

    /// Of `n` attempts to step up, those that the budget covers take effect
    /// and the rest change nothing.
    pub proof fn lemma_up_by_covered(self, n: nat)
        ensures
            self.up_by(n) == (DrainState {
                bint: self.bint.up_by(self.covered(n)),
                capacity: (self.capacity - self.covered(n)) as nat,
            }),
        decreases n,
    {
        if n > 0 {
            self.lemma_up_by_covered((n - 1) as nat);
        }
    }

    /// Of `n` attempts to step down, those that the budget covers take effect
    /// and the rest change nothing.
    pub proof fn lemma_down_by_covered(self, n: nat)
        ensures
            self.down_by(n) == (DrainState {
                bint: self.bint.down_by(self.covered(n)),
                capacity: (self.capacity - self.covered(n)) as nat,
            }),
        decreases n,
    {
        if n > 0 {
            self.lemma_down_by_covered((n - 1) as nat);
        }
    }
}

/// A bounded counter that honours a limited number of steps. Each step first
/// takes one unit from the budget; once the budget is spent every further
/// step is refused and the counter stays where it is. The budget is never
/// refilled.
#[derive(Debug, PartialEq, Eq, Ord, Structural)]
pub struct DrainableBintCell {
    bint_cell: BintCell,
    pub capacity: usize,
}

impl View for DrainableBintCell {
    type V = DrainState;

    /// The bounded value held and the budget left.
    closed spec fn view(&self) -> DrainState {
        DrainState { bint: self.bint_cell@, capacity: self.capacity as nat }
    }
}

impl DrainableBintCell {
    /// A drainable holder at zero under the given boundary, with `capacity`
    /// steps to spend.
    #[must_use]
    pub fn new(boundary: u8, capacity: usize) -> (r: DrainableBintCell)
        ensures
            r@ == (DrainState { bint: Bint { value: 0, boundary }, capacity: capacity as nat }),
            r@.bint.wf(),
    {
        DrainableBintCell { bint_cell: BintCell::new(boundary), capacity }
    }

    /// A drainable holder at `value` under the given boundary, or at zero
    /// where the value does not lie below the boundary, with `capacity` steps
    /// to spend.
    #[must_use]
    pub fn new_with_value(boundary: u8, capacity: usize, value: u8) -> (r: DrainableBintCell)
        ensures
            r@.bint.boundary == boundary,
            value < boundary ==> r@.bint.value == value,
            value >= boundary ==> r@.bint.value == 0,
            r@.capacity == capacity,
            r@.bint.wf(),
    {
        DrainableBintCell { bint_cell: BintCell::new_with_value(boundary, value), capacity }
    }

    /// Takes one unit from the budget and returns what is left of it, or
    /// `None`, with nothing changed, where the budget was already spent. The
    /// counter does not move.
    pub fn drain(&mut self) -> (r: Option<usize>)
        ensures
            final(self)@ == old(self)@.drain(),
            old(self)@.capacity > 0 ==> r.is_some() && r.unwrap() == old(self)@.capacity - 1,
            old(self)@.capacity == 0 ==> r.is_none(),
    {
        if self.capacity == 0 {
            return None;
        }
        self.capacity = self.capacity - 1;
        Some(self.capacity)
    }

    /// Steps up once if the budget allows it and returns the new count.
    /// Where the budget is spent the result is `None` and nothing changes.
    #[must_use]
    pub fn up(&mut self) -> (r: Option<u8>)
        ensures
            final(self)@ == old(self)@.up(),
            r == old(self)@.outcome(Step::Up),
            old(self)@.bint.wf() ==> final(self)@.bint.wf(),
    {
        if self.drain().is_none() {
            return None;
        }
        Some(self.bint_cell.up())
    }

    /// Steps down once if the budget allows it and returns the new count.
    /// Where the budget is spent the result is `None` and nothing changes.
    #[must_use]
    pub fn down(&mut self) -> (r: Option<u8>)
        ensures
            final(self)@ == old(self)@.down(),
            r == old(self)@.outcome(Step::Down),
            old(self)@.bint.wf() ==> final(self)@.bint.wf(),
    {
        if self.drain().is_none() {
            return None;
        }
        Some(self.bint_cell.down())
    }

    /// Steps up `x` times, each step taking one unit from the budget, and
    /// returns the count reached. Where the budget runs out on the way the
    /// result is `None`; the steps taken until then stay taken.
    #[must_use]
    #[verifier::loop_isolation(false)]
    pub fn up_x(&mut self, x: u8) -> (r: Option<u8>)
        ensures
            final(self)@ == old(self)@.up_by(x as nat),
            final(self)@.bint == old(self)@.bint.up_by(old(self)@.covered(x as nat)),
            final(self)@.bint.boundary == old(self)@.bint.boundary,
            final(self)@.bint.value == wrap_up_by(
                old(self)@.bint.value as int,
                old(self)@.bint.boundary as int,
                old(self)@.covered(x as nat),
            ),
            final(self)@.capacity == old(self)@.capacity - old(self)@.covered(x as nat),
            x <= old(self)@.capacity ==> r == Some(final(self)@.bint.value),
            x > old(self)@.capacity ==> r.is_none(),
            old(self)@.bint.wf() ==> final(self)@.bint.wf(),
    {
        proof {
            old(self)@.lemma_up_by_covered(x as nat);
            old(self)@.bint.lemma_up_by_closed_form(old(self)@.covered(x as nat));
        }
        let mut i: u8 = 0;
        while i < x
            invariant
                i <= x,
                i <= old(self)@.capacity,
                self@ == old(self)@.up_by(i as nat),
            decreases x - i,
        {
            proof {
                old(self)@.lemma_up_by_covered(i as nat);
            }
            if self.up().is_none() {
                return None;
            }
            i = i + 1;
        }
        Some(self.value())
    }

    /// Steps down `x` times, each step taking one unit from the budget, and
    /// returns the count reached. Where the budget runs out on the way the
    /// result is `None`; the steps taken until then stay taken.
    #[must_use]
    #[verifier::loop_isolation(false)]
    pub fn down_x(&mut self, x: u8) -> (r: Option<u8>)
        ensures
            final(self)@ == old(self)@.down_by(x as nat),
            final(self)@.bint == old(self)@.bint.down_by(old(self)@.covered(x as nat)),
            final(self)@.bint.boundary == old(self)@.bint.boundary,
            final(self)@.bint.value == wrap_down_by(
                old(self)@.bint.value as int,
                old(self)@.bint.boundary as int,
                old(self)@.covered(x as nat),
            ),
            final(self)@.capacity == old(self)@.capacity - old(self)@.covered(x as nat),
            x <= old(self)@.capacity ==> r == Some(final(self)@.bint.value),
            x > old(self)@.capacity ==> r.is_none(),
            old(self)@.bint.wf() ==> final(self)@.bint.wf(),
    {
        proof {
            old(self)@.lemma_down_by_covered(x as nat);
            old(self)@.bint.lemma_down_by_closed_form(old(self)@.covered(x as nat));
        }
        let mut i: u8 = 0;
        while i < x
            invariant
                i <= x,
                i <= old(self)@.capacity,
                self@ == old(self)@.down_by(i as nat),
            decreases x - i,
        {
            proof {
                old(self)@.lemma_down_by_covered(i as nat);
            }
            if self.down().is_none() {
                return None;
            }
            i = i + 1;
        }
        Some(self.value())
    }

    /// The budget that is left. Reading it takes nothing from it.
    #[must_use]
    pub fn capacity(&self) -> (r: usize)
        ensures
            r == self@.capacity,
    {
        self.capacity
    }

    /// The current count. Reading it takes nothing from the budget.
    #[must_use]
    pub fn value(&self) -> (r: u8)
        ensures
            r == self@.bint.value,
    {
        self.bint_cell.value()
    }
}

impl Clone for DrainableBintCell {
    /// A second drainable holder with the same count, boundary and budget.
    /// The two are stepped, and drained, independently from then on.
    fn clone(&self) -> (r: DrainableBintCell)
        ensures
            r == *self,
            r@ == self@,
    {
        DrainableBintCell { bint_cell: self.bint_cell.clone(), capacity: self.capacity }
    }
}

impl From<DrainableBintCell> for Bint {
    /// The bounded value that the drainable holder holds. The budget is
    /// dropped.
    fn from(cell: DrainableBintCell) -> (r: Bint)
        ensures
            r == cell@.bint,
    {
        Bint::from(cell.bint_cell)
    }
}

impl vstd::std_specs::convert::FromSpecImpl<DrainableBintCell> for Bint {
    open spec fn obeys_from_spec() -> bool {
        true
    }

    open spec fn from_spec(cell: DrainableBintCell) -> Bint {
        cell@.bint
    }
}

impl From<&DrainableBintCell> for Bint {
    /// The bounded value that the drainable holder holds. The budget is
    /// dropped.
    fn from(cell: &DrainableBintCell) -> (r: Bint)
        ensures
            r == cell@.bint,
    {
        Bint::from(&cell.bint_cell)
    }
}

impl vstd::std_specs::convert::FromSpecImpl<&DrainableBintCell> for Bint {
    open spec fn obeys_from_spec() -> bool {
        true
    }

    open spec fn from_spec(cell: &DrainableBintCell) -> Bint {
        cell@.bint
    }
}

impl From<DrainableBintCell> for BintCell {
    /// The holder inside the drainable one. The budget is dropped.
    fn from(cell: DrainableBintCell) -> (r: BintCell)
        ensures
            r@ == cell@.bint,
    {
        cell.bint_cell
    }
}

impl vstd::std_specs::convert::FromSpecImpl<DrainableBintCell> for BintCell {
    open spec fn obeys_from_spec() -> bool {
        true
    }

    open spec fn from_spec(cell: DrainableBintCell) -> BintCell {
        BintCell { cell: cell@.bint.value, boundary: cell@.bint.boundary }
    }
}

impl From<&DrainableBintCell> for BintCell {
    /// A copy of the holder inside the drainable one. The budget is dropped.
    fn from(cell: &DrainableBintCell) -> (r: BintCell)
        ensures
            r@ == cell@.bint,
    {
        cell.bint_cell.clone()
    }
}

impl vstd::std_specs::convert::FromSpecImpl<&DrainableBintCell> for BintCell {
    open spec fn obeys_from_spec() -> bool {
        true
    }

    open spec fn from_spec(cell: &DrainableBintCell) -> BintCell {
        BintCell { cell: cell@.bint.value, boundary: cell@.bint.boundary }
    }
}

} // verus!
