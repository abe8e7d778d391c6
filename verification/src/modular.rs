//! Wraparound arithmetic on mathematical integers.
//!
//! These functions say what a single step, and a run of steps, does to a
//! counter under a boundary. The executable types state their contracts over
//! them, and the lemmas below are the arithmetic those contracts rest on.

use vstd::prelude::*;
use vstd::arithmetic::div_mod::{
    lemma_add_mod_noop_right, lemma_mod_add_multiples_vanish, lemma_mod_bound,
    lemma_mod_sub_multiples_vanish, lemma_small_mod,
};

verus! {

/// The counter after one step up: the successor modulo the boundary.
/// Under a boundary of zero the result is zero.
pub open spec fn wrap_up(value: int, boundary: int) -> int {
    if boundary == 0 {
        0
    } else {
        (value + 1) % boundary
    }
}

/// The counter after one step down: the predecessor modulo the boundary, so
/// that zero wraps to `boundary - 1`. Under a boundary of zero the counter
/// stays where it is.
pub open spec fn wrap_down(value: int, boundary: int) -> int {
    if boundary == 0 {
        value
    } else {
        (value - 1) % boundary
    }
}

/// The counter after `n` steps up, in closed form.
pub open spec fn wrap_up_by(value: int, boundary: int, n: nat) -> int {
    if n == 0 {
        value
    } else if boundary == 0 {
        0
    } else {
        (value + n) % boundary
    }
}

/// The counter after `n` steps down, in closed form.
pub open spec fn wrap_down_by(value: int, boundary: int, n: nat) -> int {
    if n == 0 || boundary == 0 {
        value
    } else {
        (value - n) % boundary
    }
}

/// A step under a positive boundary lands below that boundary, wherever it
/// started from.
pub proof fn lemma_wrap_in_range(value: int, boundary: int)
    requires
        boundary > 0,
    ensures
        0 <= wrap_up(value, boundary) < boundary,
        0 <= wrap_down(value, boundary) < boundary,
{
    lemma_mod_bound(value + 1, boundary);
    lemma_mod_bound(value - 1, boundary);
}

/// Below the last place a step up is a plain increment; from the last place
/// it returns to zero.
pub proof fn lemma_wrap_up_cases(value: int, boundary: int)
    requires
        0 <= value < boundary,
    ensures
        wrap_up(value, boundary) == (if value + 1 == boundary {
            0
        } else {
            value + 1
        }),
{
    if value + 1 == boundary {
        lemma_mod_add_multiples_vanish(0, boundary);
        lemma_small_mod(0, boundary as nat);
    } else {
        lemma_small_mod((value + 1) as nat, boundary as nat);
    }
}

/// Above zero a step down is a plain decrement; from zero it wraps to the
/// last place.
pub proof fn lemma_wrap_down_cases(value: int, boundary: int)
    requires
        0 <= value < boundary,
    ensures
        wrap_down(value, boundary) == (if value == 0 {
            boundary - 1
        } else {
            value - 1
        }),
{
    if value == 0 {
        lemma_mod_add_multiples_vanish(-1, boundary);
        lemma_small_mod((boundary - 1) as nat, boundary as nat);
    } else {
        lemma_small_mod((value - 1) as nat, boundary as nat);
    }
}

/// Inside the range, a step down undoes a step up and a step up undoes a step
/// down.
pub proof fn lemma_wrap_inverse(value: int, boundary: int)
    requires
        0 <= value < boundary,
    ensures
        wrap_down(wrap_up(value, boundary), boundary) == value,
        wrap_up(wrap_down(value, boundary), boundary) == value,
{
    lemma_wrap_up_cases(value, boundary);
    lemma_wrap_down_cases(value, boundary);
    lemma_wrap_in_range(value, boundary);
    lemma_wrap_up_cases(wrap_down(value, boundary), boundary);
    lemma_wrap_down_cases(wrap_up(value, boundary), boundary);
}

/// One more step up after `n` of them is `n + 1` steps up.
pub proof fn lemma_wrap_up_by_next(value: int, boundary: int, n: nat)
    requires
        boundary >= 0,
    ensures
        wrap_up(wrap_up_by(value, boundary, n), boundary) == wrap_up_by(value, boundary, n + 1),
{
    if boundary > 0 && n > 0 {
        lemma_add_mod_noop_right(1, value + n, boundary);
    }
}

/// One more step down after `n` of them is `n + 1` steps down.
pub proof fn lemma_wrap_down_by_next(value: int, boundary: int, n: nat)
    requires
        boundary >= 0,
    ensures
        wrap_down(wrap_down_by(value, boundary, n), boundary) == wrap_down_by(
            value,
            boundary,
            n + 1,
        ),
{
    if boundary > 0 && n > 0 {
        lemma_add_mod_noop_right(-1, value - n, boundary);
    }
}

/// Inside the range, as many steps as the boundary counts lead back to the
/// start, in either direction.
pub proof fn lemma_wrap_full_cycle(value: int, boundary: int)
    requires
        0 <= value < boundary,
    ensures
        wrap_up_by(value, boundary, boundary as nat) == value,
        wrap_down_by(value, boundary, boundary as nat) == value,
{
    lemma_mod_add_multiples_vanish(value, boundary);
    lemma_mod_sub_multiples_vanish(value, boundary);
    lemma_small_mod(value as nat, boundary as nat);
}

} // verus!
