//! Laws of stepping: what holds of every bounded value and of every budget.

use vstd::prelude::*;
use crate::bint::Bint;
use crate::drainable::{DrainState, Step};
use crate::modular::{lemma_wrap_full_cycle, lemma_wrap_in_range, lemma_wrap_inverse};

verus! {

/// Range law: a step up lands inside the range from any value, and so does a
/// step down under a positive boundary. Under a boundary of zero a step down
/// keeps a value that was inside its range there.
pub proof fn lemma_step_in_range(x: Bint)
    ensures
        x.up().wf(),
        x.boundary > 0 || x.wf() ==> x.down().wf(),
        x.up().boundary == x.boundary,
        x.down().boundary == x.boundary,
{
    if x.boundary > 0 {
        lemma_wrap_in_range(x.value as int, x.boundary as int);
    }
}

/// Inverse law: on a value inside its range, a step down undoes a step up,
/// and a step up undoes a step down.
pub proof fn lemma_up_down_inverse(x: Bint)
    requires
        x.wf(),
    ensures
        x.up().down() == x,
        x.down().up() == x,
{
    if x.boundary > 0 {
        lemma_wrap_inverse(x.value as int, x.boundary as int);
    }
}

/// Cyclic law: from a value inside its range, as many steps as the boundary
/// counts lead back to that value, going up as well as going down.
pub proof fn lemma_full_cycle(x: Bint)
    requires
        x.wf(),
    ensures
        x.up_by(x.boundary as nat) == x,
        x.down_by(x.boundary as nat) == x,
{
    x.lemma_up_by_closed_form(x.boundary as nat);
    x.lemma_down_by_closed_form(x.boundary as nat);
    if x.boundary > 0 {
        lemma_wrap_full_cycle(x.value as int, x.boundary as int);
    }
}

/// Bulk law: no steps leave the value alone, and `n + 1` steps are `n` steps
/// followed by one more, which is the same as one step followed by `n` more.
pub proof fn lemma_bulk_is_repeated_step(x: Bint, n: nat)
    ensures
        x.up_by(0) == x,
        x.up_by(n + 1) == x.up_by(n).up(),
        x.up_by(n + 1) == x.up().up_by(n),
        x.down_by(0) == x,
        x.down_by(n + 1) == x.down_by(n).down(),
        x.down_by(n + 1) == x.down().down_by(n),
    decreases n,
{
    if n > 0 {
        lemma_bulk_is_repeated_step(x, (n - 1) as nat);
    }
}

/// Zero-boundary law: under a boundary of zero a step up yields zero from
/// any value and a step down leaves any value as it is, so a counter at zero
/// stays at zero either way.
pub proof fn lemma_zero_boundary_at_rest(x: Bint)
    requires
        x.boundary == 0,
    ensures
        x.up() == (Bint { value: 0, boundary: 0 }),
        x.down() == x,
        x.value == 0 ==> x.up().value == 0 && x.down().value == 0,
{
}

/// The budget left after a run of stepping calls: one unit less for each
/// call, down to zero and no further.
pub proof fn lemma_run_capacity(start: DrainState, steps: Seq<Step>)
    ensures
        start.run(steps).capacity == (if steps.len() <= start.capacity {
            start.capacity - steps.len()
        } else {
            0
        }),
        start.run(steps).capacity <= start.capacity,
    decreases steps.len(),
{
    if steps.len() > 0 {
        lemma_run_capacity(start, steps.drop_last());
    }
}

/// Once the budget is spent no stepping call changes the state any more,
/// whether it comes alone, in a run or in bulk.
pub proof fn lemma_exhausted_stays(spent: DrainState, steps: Seq<Step>, n: nat)
    requires
        spent.capacity == 0,
    ensures
        spent.up() == spent,
        spent.down() == spent,
        spent.drain() == spent,
        spent.run(steps) == spent,
        spent.up_by(n) == spent,
        spent.down_by(n) == spent,
{
    lemma_run_stays(spent, steps);
    spent.lemma_up_by_covered(n);
    spent.lemma_down_by_covered(n);
}

/// A run of stepping calls from a spent budget ends where it began.
proof fn lemma_run_stays(spent: DrainState, steps: Seq<Step>)
    requires
        spent.capacity == 0,
    ensures
        spent.run(steps) == spent,
    decreases steps.len(),
{
    if steps.len() > 0 {
        lemma_run_stays(spent, steps.drop_last());
    }
}

/// A run of stepping calls keeps the boundary, and keeps a count that was
/// inside its range there.
pub proof fn lemma_run_in_range(start: DrainState, steps: Seq<Step>)
    ensures
        start.run(steps).bint.boundary == start.bint.boundary,
        start.bint.wf() ==> start.run(steps).bint.wf(),
    decreases steps.len(),
{
    if steps.len() > 0 {
        lemma_run_in_range(start, steps.drop_last());
        lemma_step_in_range(start.run(steps.drop_last()).bint);
    }
}

/// Exhaustion law: from a budget of `k`, any `k + 1` stepping calls go as
/// follows. Each of the first `k` succeeds; the last one signals exhaustion
/// and leaves the state, the count with it, as it was after the `k`-th.
pub proof fn lemma_budget_exhaustion(start: DrainState, steps: Seq<Step>)
    requires
        steps.len() == start.capacity + 1,
    ensures
        forall|i: int|
            0 <= i < start.capacity ==> (#[trigger] start.run(steps.take(i))).outcome(
                steps[i],
            ).is_some(),
        start.run(steps.take(start.capacity as int)).outcome(
            steps[start.capacity as int],
        ).is_none(),
        start.run(steps) == start.run(steps.take(start.capacity as int)),
{
    let k = start.capacity as int;
    assert forall|i: int| 0 <= i < k implies (#[trigger] start.run(steps.take(i))).outcome(
        steps[i],
    ).is_some() by {
        lemma_run_capacity(start, steps.take(i));
    }
    lemma_run_capacity(start, steps.take(k));
    assert(steps.drop_last() =~= steps.take(k));
}

} // verus!
