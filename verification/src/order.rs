//! The order of bounded values and holders: by count first, then by boundary,
//! then, for a drainable holder, by the budget left.

use vstd::prelude::*;
use std::cmp::Ordering;
use crate::bint::Bint;
use crate::cell::BintCell;
use crate::drainable::{DrainState, DrainableBintCell};

verus! {

/// `a` comes before `b`: its count is smaller, or the counts are equal and
/// its boundary is smaller.
pub open spec fn precedes(a: Bint, b: Bint) -> bool {
    a.value < b.value || (a.value == b.value && a.boundary < b.boundary)
}

/// `a` comes before `b`: its bounded value comes first, or the bounded
/// values are equal and its budget is smaller.
pub open spec fn drain_precedes(a: DrainState, b: DrainState) -> bool {
    precedes(a.bint, b.bint) || (a.bint == b.bint && a.capacity < b.capacity)
}

/// How two bounded values compare.
pub open spec fn bint_order(a: Bint, b: Bint) -> Ordering {
    if precedes(a, b) {
        Ordering::Less
    } else if precedes(b, a) {
        Ordering::Greater
    } else {
        Ordering::Equal
    }
}

/// How two drainable states compare.
pub open spec fn drain_order(a: DrainState, b: DrainState) -> Ordering {
    if drain_precedes(a, b) {
        Ordering::Less
    } else if drain_precedes(b, a) {
        Ordering::Greater
    } else {
        Ordering::Equal
    }
}

/// The order on bounded values is a strict total order: of two values
/// either one comes first or they are equal, never both ways, and coming
/// first carries over a middle value.
pub proof fn lemma_precedes_total_order(a: Bint, b: Bint, c: Bint)
    ensures
        !precedes(a, a),
        precedes(a, b) || precedes(b, a) || a == b,
        !(precedes(a, b) && precedes(b, a)),
        precedes(a, b) && precedes(b, c) ==> precedes(a, c),
{
}

/// The order on drainable states is a strict total order as well.
pub proof fn lemma_drain_precedes_total_order(a: DrainState, b: DrainState, c: DrainState)
    ensures
        !drain_precedes(a, a),
        drain_precedes(a, b) || drain_precedes(b, a) || a == b,
        !(drain_precedes(a, b) && drain_precedes(b, a)),
        drain_precedes(a, b) && drain_precedes(b, c) ==> drain_precedes(a, c),
{
}

/// Compares two bounded values by count, then by boundary.
fn compare_bints(a: Bint, b: Bint) -> (r: Ordering)
    ensures
        r == bint_order(a, b),
{
    if a.value < b.value {
        Ordering::Less
    } else if a.value > b.value {
        Ordering::Greater
    } else if a.boundary < b.boundary {
        Ordering::Less
    } else if a.boundary > b.boundary {
        Ordering::Greater
    } else {
        Ordering::Equal
    }
}

impl PartialOrd for Bint {
    fn partial_cmp(&self, other: &Bint) -> (r: Option<Ordering>) {
        Some(compare_bints(*self, *other))
    }
}

impl vstd::std_specs::cmp::PartialOrdSpecImpl for Bint {
    open spec fn obeys_partial_cmp_spec() -> bool {
        true
    }

    open spec fn partial_cmp_spec(&self, other: &Bint) -> Option<Ordering> {
        Some(bint_order(*self, *other))
    }
}

impl PartialOrd for BintCell {
    fn partial_cmp(&self, other: &BintCell) -> (r: Option<Ordering>) {
        Some(compare_bints(Bint::from(self), Bint::from(other)))
    }
}

impl vstd::std_specs::cmp::PartialOrdSpecImpl for BintCell {
    open spec fn obeys_partial_cmp_spec() -> bool {
        true
    }

    open spec fn partial_cmp_spec(&self, other: &BintCell) -> Option<Ordering> {
        Some(bint_order(self@, other@))
    }
}

impl PartialOrd for DrainableBintCell {
    fn partial_cmp(&self, other: &DrainableBintCell) -> (r: Option<Ordering>) {
        match compare_bints(Bint::from(self), Bint::from(other)) {
            Ordering::Less => Some(Ordering::Less),
            Ordering::Greater => Some(Ordering::Greater),
            Ordering::Equal => {
                let mine: usize = self.capacity();
                let theirs: usize = other.capacity();
                if mine < theirs {
                    Some(Ordering::Less)
                } else if mine > theirs {
                    Some(Ordering::Greater)
                } else {
                    Some(Ordering::Equal)
                }
            },
        }
    }
}

impl vstd::std_specs::cmp::PartialOrdSpecImpl for DrainableBintCell {
    open spec fn obeys_partial_cmp_spec() -> bool {
        true
    }

    open spec fn partial_cmp_spec(&self, other: &DrainableBintCell) -> Option<Ordering> {
        Some(drain_order(self@, other@))
    }
}

} // verus!
