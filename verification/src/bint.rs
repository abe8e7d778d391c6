//! The immutable bounded value and its wraparound arithmetic.

use vstd::prelude::*;
use crate::text::{decimal, decimal_string};
use crate::modular::{
    lemma_wrap_down_by_next, lemma_wrap_down_cases, lemma_wrap_in_range, lemma_wrap_up_by_next,
    lemma_wrap_up_cases, wrap_down, wrap_down_by, wrap_up, wrap_up_by,
};

verus! {

/// An unsigned counter together with the boundary at which it wraps back to zero.
///
/// In the normal case `value < boundary`. A boundary of zero is permitted:
/// stepping such a value never divides by it, a step up yields zero and a
/// step down leaves the value as it is. Both fields are public, so a value
/// outside its range can be written down; every step under a positive
/// boundary brings it back inside.
#[derive(Clone, Copy, Debug, PartialEq, Eq, Ord, Hash, Structural)]
pub struct Bint {
    pub value: u8,
    pub boundary: u8,
}

impl Bint {
    /// The counter lies in the range its boundary allows: below the boundary,
    /// or at zero when the boundary itself is zero.
    pub open spec fn wf(self) -> bool {
        self.value == 0 || self.value < self.boundary
    }

    /// What `up` returns: the successor modulo the boundary, the boundary kept.
    pub open spec fn spec_up(&self) -> Bint {
        Bint {
            value: wrap_up(self.value as int, self.boundary as int) as u8,
            boundary: self.boundary,
        }
    }

    /// What `down` returns: the predecessor modulo the boundary, the boundary
    /// kept.
    pub open spec fn spec_down(&self) -> Bint {
        Bint {
            value: wrap_down(self.value as int, self.boundary as int) as u8,
            boundary: self.boundary,
        }
    }

    /// The value reached by `n` successive steps up.
    pub open spec fn up_by(self, n: nat) -> Bint
        decreases n,
    {
        if n == 0 {
            self
        } else {
            self.up_by((n - 1) as nat).spec_up()
        }
    }

    /// The value reached by `n` successive steps down.
    pub open spec fn down_by(self, n: nat) -> Bint
        decreases n,
    {
        if n == 0 {
            self
        } else {
            self.down_by((n - 1) as nat).spec_down()
        }
    }

    /// Successive steps up add up modulo the boundary: after `n` of them the
    /// counter is `wrap_up_by(value, boundary, n)`, and the boundary is the
    /// one it started with.
    pub proof fn lemma_up_by_closed_form(self, n: nat)
        ensures
            self.up_by(n).boundary == self.boundary,
            self.up_by(n).value == wrap_up_by(self.value as int, self.boundary as int, n),
            n > 0 || self.wf() ==> self.up_by(n).wf(),
        decreases n,
    {
        if n > 0 {
            let before = (n - 1) as nat;
            self.lemma_up_by_closed_form(before);
            lemma_wrap_up_by_next(self.value as int, self.boundary as int, before);
            if self.boundary > 0 {
                lemma_wrap_in_range(self.up_by(before).value as int, self.boundary as int);
            }
        }
    }

    /// Successive steps down subtract modulo the boundary: after `n` of them
    /// the counter is `wrap_down_by(value, boundary, n)`, and the boundary is
    /// the one it started with.
    pub proof fn lemma_down_by_closed_form(self, n: nat)
        ensures
            self.down_by(n).boundary == self.boundary,
            self.down_by(n).value == wrap_down_by(self.value as int, self.boundary as int, n),
            self.boundary > 0 && n > 0 || self.wf() ==> self.down_by(n).wf(),
        decreases n,
    {
        if n > 0 {
            let before = (n - 1) as nat;
            self.lemma_down_by_closed_form(before);
            lemma_wrap_down_by_next(self.value as int, self.boundary as int, before);
            if self.boundary > 0 {
                lemma_wrap_in_range(self.down_by(before).value as int, self.boundary as int);
            }
        }
    }

    /// A counter at zero under the given boundary. Any boundary is accepted,
    /// zero included.
    #[must_use]
    pub fn new(boundary: u8) -> (r: Bint)
        ensures
            r == (Bint { value: 0, boundary }),
            r.wf(),
    {
        Bint { value: 0, boundary }
    }

    /// A counter at `value` under the given boundary. A value that does not
    /// lie below the boundary is not an error: the counter starts at zero
    /// instead.
    #[must_use]
    pub fn new_with_value(boundary: u8, value: u8) -> (r: Bint)
        ensures
            r.boundary == boundary,
            value < boundary ==> r.value == value,
            value >= boundary ==> r.value == 0,
            r.wf(),
    {
        if value >= boundary {
            Bint::new(boundary)
        } else {
            Bint { value, boundary }
        }
    }

    /// One step up: `(value + 1) mod boundary`, or zero under a boundary of
    /// zero. The sum is formed without overflow, so the result is the
    /// mathematical one for every `value`.
    #[verifier::when_used_as_spec(spec_up)]
    #[must_use]
    pub fn up(&self) -> (r: Bint)
        ensures
            r == self.spec_up(),
            r.wf(),
            self.value + 1 < self.boundary ==> r.value == self.value + 1,
            self.value + 1 == self.boundary ==> r.value == 0,
    {
        proof {
            if self.boundary > 0 {
                lemma_wrap_in_range(self.value as int, self.boundary as int);
            }
            if self.value < self.boundary {
                lemma_wrap_up_cases(self.value as int, self.boundary as int);
            }
        }
        let v: u8 = if self.boundary == 0 {
            0
        } else {
            ((self.value as u16 + 1) % (self.boundary as u16)) as u8
        };
        Bint { value: v, boundary: self.boundary }
    }

    /// One step down: `(value - 1) mod boundary`, so that zero wraps to
    /// `boundary - 1`. Under a boundary of zero the value is returned
    /// unchanged.
    #[verifier::when_used_as_spec(spec_down)]
    #[must_use]
    pub fn down(&self) -> (r: Bint)
        ensures
            r == self.spec_down(),
            self.boundary > 0 || self.wf() ==> r.wf(),
            0 < self.value < self.boundary ==> r.value == self.value - 1,
            self.value == 0 && self.boundary > 0 ==> r.value == self.boundary - 1,
    {
        if self.boundary == 0 {
            return *self;
        }
        proof {
            lemma_wrap_in_range(self.value as int, self.boundary as int);
            if self.value < self.boundary {
                lemma_wrap_down_cases(self.value as int, self.boundary as int);
            }
        }
        if self.value == 0 {
            return Bint { value: self.boundary - 1, boundary: self.boundary };
        }
        let v: u8 = (self.value - 1) % self.boundary;
        Bint { value: v, boundary: self.boundary }
    }

    /// `x` steps up, one after another.
    #[must_use]
    pub fn up_x(self, x: u8) -> (r: Bint)
        ensures
            r == self.up_by(x as nat),
            r.boundary == self.boundary,
            r.value == wrap_up_by(self.value as int, self.boundary as int, x as nat),
            x > 0 || self.wf() ==> r.wf(),
    {
        let mut up: Bint = self;
        let mut i: u8 = 0;
        while i < x
            invariant
                i <= x,
                up == self.up_by(i as nat),
            decreases x - i,
        {
            up = up.up();
            i = i + 1;
        }
        proof {
            self.lemma_up_by_closed_form(x as nat);
        }
        up
    }

    /// `x` steps down, one after another.
    #[must_use]
    pub fn down_x(self, x: u8) -> (r: Bint)
        ensures
            r == self.down_by(x as nat),
            r.boundary == self.boundary,
            r.value == wrap_down_by(self.value as int, self.boundary as int, x as nat),
            self.boundary > 0 && x > 0 || self.wf() ==> r.wf(),
    {
        let mut down: Bint = self;
        let mut i: u8 = 0;
        while i < x
            invariant
                i <= x,
                down == self.down_by(i as nat),
            decreases x - i,
        {
            down = down.down();
            i = i + 1;
        }
        proof {
            self.lemma_down_by_closed_form(x as nat);
        }
        down
    }

    /// The counter as text: the decimal numeral of `value`. The boundary is
    /// not shown.
    #[must_use]
    pub fn to_string(&self) -> (s: String)
        ensures
            s@ == decimal(self.value as nat),
    {
        decimal_string(self.value)
    }
}

impl Default for Bint {
    /// A counter at zero under the widest boundary an eight-bit counter can
    /// have.
    fn default() -> (r: Bint)
        ensures
            r == (Bint { value: 0, boundary: u8::MAX }),
            r.wf(),
    {
        Bint { value: 0, boundary: u8::MAX }
    }
}

} // verus!
