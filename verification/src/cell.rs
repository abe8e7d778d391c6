//! The mutable holder: a bounded value that is stepped in place.

use vstd::prelude::*;
use crate::bint::Bint;
use crate::modular::{wrap_down_by, wrap_up_by};
use crate::text::{decimal, decimal_string};

verus! {

/// A bounded counter held in a single slot. Stepping changes the slot and
/// returns the new count; the boundary is set at construction.
///
/// The holder is changed through `&mut self`, so it has one owner at a time.
#[derive(Debug, PartialEq, Eq, Ord, Structural)]
pub struct BintCell {
    pub cell: u8,
    pub boundary: u8,
}

impl View for BintCell {
    type V = Bint;

    /// The bounded value that the holder currently stands for.
    open spec fn view(&self) -> Bint {
        Bint { value: self.cell, boundary: self.boundary }
    }
}

impl BintCell {
    /// A holder at zero under the given boundary.
    #[must_use]
    pub fn new(boundary: u8) -> (r: BintCell)
        ensures
            r@ == (Bint { value: 0, boundary }),
            r@.wf(),
    {
        BintCell { cell: 0, boundary }
    }

    /// A holder at `value` under the given boundary, or at zero where the
    /// value does not lie below the boundary.
    #[must_use]
    pub fn new_with_value(boundary: u8, value: u8) -> (r: BintCell)
        ensures
            r.boundary == boundary,
            value < boundary ==> r.cell == value,
            value >= boundary ==> r.cell == 0,
            r@.wf(),
    {
        if value >= boundary {
            BintCell::new(boundary)
        } else {
            BintCell { cell: value, boundary }
        }
    }

    /// Steps the holder up once and returns the new count.
    pub fn up(&mut self) -> (r: u8)
        ensures
            final(self)@ == old(self)@.spec_up(),
            r == final(self).cell,
            final(self)@.wf(),
    {
        let bint = Bint { value: self.value(), boundary: self.boundary }.up();
        self.cell = bint.value;
        bint.value
    }

    /// Steps the holder up `x` times and returns the count it ends on.
    pub fn up_x(&mut self, x: u8) -> (r: u8)
        ensures
            final(self)@ == old(self)@.up_by(x as nat),
            final(self).boundary == old(self).boundary,
            r == final(self).cell,
            r == wrap_up_by(old(self).cell as int, old(self).boundary as int, x as nat),
            x > 0 || old(self)@.wf() ==> final(self)@.wf(),
    {
        let mut i: u8 = 0;
        while i < x
            invariant
                i <= x,
                self@ == old(self)@.up_by(i as nat),
            decreases x - i,
        {
            self.up();
            i = i + 1;
        }
        proof {
            old(self)@.lemma_up_by_closed_form(x as nat);
        }
        self.value()
    }

    /// Steps the holder down once and returns the new count.
    pub fn down(&mut self) -> (r: u8)
        ensures
            final(self)@ == old(self)@.spec_down(),
            r == final(self).cell,
            old(self).boundary > 0 || old(self)@.wf() ==> final(self)@.wf(),
    {
        let bint = Bint { value: self.value(), boundary: self.boundary }.down();
        self.cell = bint.value;
        bint.value
    }

    /// Steps the holder down `x` times and returns the count it ends on.
    pub fn down_x(&mut self, x: u8) -> (r: u8)
        ensures
            final(self)@ == old(self)@.down_by(x as nat),
            final(self).boundary == old(self).boundary,
            r == final(self).cell,
            r == wrap_down_by(old(self).cell as int, old(self).boundary as int, x as nat),
            old(self).boundary > 0 && x > 0 || old(self)@.wf() ==> final(self)@.wf(),
    {
        let mut i: u8 = 0;
        while i < x
            invariant
                i <= x,
                self@ == old(self)@.down_by(i as nat),
            decreases x - i,
        {
            self.down();
            i = i + 1;
        }
        proof {
            old(self)@.lemma_down_by_closed_form(x as nat);
        }
        self.value()
    }

    /// Puts the count back to zero. The boundary stays.
    pub fn reset(&mut self)
        ensures
            final(self)@ == (Bint { value: 0, boundary: old(self).boundary }),
            final(self)@.wf(),
    {
        self.set(0);
    }

    /// Overwrites the count with `value` as given, whether or not it lies
    /// below the boundary. The next step under a positive boundary reduces
    /// the count modulo the boundary again.
    pub fn set(&mut self, value: u8)
        ensures
            final(self)@ == (Bint { value, boundary: old(self).boundary }),
    {
        self.cell = value;
    }

    /// The bounded value that `x` steps down would lead to. The holder is
    /// not changed.
    pub fn static_down_x(&self, x: u8) -> (r: Bint)
        ensures
            r == self@.down_by(x as nat),
            r.boundary == self.boundary,
            r.value == wrap_down_by(self.cell as int, self.boundary as int, x as nat),
    {
        Bint { value: self.cell, boundary: self.boundary }.down_x(x)
    }

    /// The bounded value that `x` steps up would lead to. The holder is not
    /// changed.
    pub fn static_up_x(&self, x: u8) -> (r: Bint)
        ensures
            r == self@.up_by(x as nat),
            r.boundary == self.boundary,
            r.value == wrap_up_by(self.cell as int, self.boundary as int, x as nat),
    {
        Bint { value: self.cell, boundary: self.boundary }.up_x(x)
    }

    /// The current count.
    #[must_use]
    pub fn value(&self) -> (r: u8)
        ensures
            r == self.cell,
    {
        self.cell
    }

    /// The current count as text: its decimal numeral.
    #[must_use]
    pub fn to_string(&self) -> (s: String)
        ensures
            s@ == decimal(self.cell as nat),
    {
        decimal_string(self.value())
    }
}

impl Clone for BintCell {
    /// A second holder with the same count and boundary. The two are stepped
    /// independently from then on.
    fn clone(&self) -> (r: BintCell)
        ensures
            r == *self,
    {
        BintCell { cell: self.cell, boundary: self.boundary }
    }
}

impl Default for BintCell {
    /// A holder at zero under the widest boundary an eight-bit counter can
    /// have.
    fn default() -> (r: BintCell)
        ensures
            r@ == (Bint { value: 0, boundary: u8::MAX }),
            r@.wf(),
    {
        BintCell { cell: 0, boundary: u8::MAX }
    }
}

impl From<BintCell> for Bint {
    /// The bounded value that the holder stands for: both fields, copied.
    fn from(cell: BintCell) -> (r: Bint)
        ensures
            r == cell@,
    {
        Bint { value: cell.cell, boundary: cell.boundary }
    }
}

impl vstd::std_specs::convert::FromSpecImpl<BintCell> for Bint {
    open spec fn obeys_from_spec() -> bool {
        true
    }

    open spec fn from_spec(cell: BintCell) -> Bint {
        cell@
    }
}

impl From<&BintCell> for Bint {
    /// The bounded value that the holder stands for: both fields, copied.
    fn from(cell: &BintCell) -> (r: Bint)
        ensures
            r == cell@,
    {
        Bint { value: cell.cell, boundary: cell.boundary }
    }
}

impl vstd::std_specs::convert::FromSpecImpl<&BintCell> for Bint {
    open spec fn obeys_from_spec() -> bool {
        true
    }

    open spec fn from_spec(cell: &BintCell) -> Bint {
        cell@
    }
}

impl From<Bint> for BintCell {
    /// A holder that stands for the given bounded value: both fields, copied.
    fn from(bint: Bint) -> (r: BintCell)
        ensures
            r@ == bint,
    {
        BintCell { cell: bint.value, boundary: bint.boundary }
    }
}

impl vstd::std_specs::convert::FromSpecImpl<Bint> for BintCell {
    open spec fn obeys_from_spec() -> bool {
        true
    }

    open spec fn from_spec(bint: Bint) -> BintCell {
        BintCell { cell: bint.value, boundary: bint.boundary }
    }
}

impl From<&Bint> for BintCell {
    /// A holder that stands for the given bounded value: both fields, copied.
    fn from(bint: &Bint) -> (r: BintCell)
        ensures
            r@ == *bint,
    {
        BintCell { cell: bint.value, boundary: bint.boundary }
    }
}

impl vstd::std_specs::convert::FromSpecImpl<&Bint> for BintCell {
    open spec fn obeys_from_spec() -> bool {
        true
    }

    open spec fn from_spec(bint: &Bint) -> BintCell {
        BintCell { cell: bint.value, boundary: bint.boundary }
    }
}

} // verus!
