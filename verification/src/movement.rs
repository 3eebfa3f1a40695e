//! Path-following movement: the adaptive arc-length walk.
//!
//! Given a movement budget (a distance, in micro-units), the walk advances
//! the path parameter in probe steps. A step whose chord would overshoot the
//! remaining budget is halved and retried; otherwise the parameter advances
//! by the step and the budget shrinks by it. The probe step only ever
//! shrinks, so the walk is a local integrator: exact on straight stretches,
//! and never moving the parameter further than the budget allows.

use vstd::prelude::*;

use crate::geometry::{spec_distance, Point, MAX_COORD};
use crate::trajectory::{LineTrajectory, Trajectory};

verus! {

/// The probe step the walk starts from: a thousandth of a world unit.
pub const INITIAL_STEP: i64 = 1000;

/// The chord the walk probes: the distance between the path points at `t`
/// and at `t + step`.
pub open spec fn spec_chord<T: Trajectory>(traj: &T, t: int, step: int) -> int {
    spec_distance(traj.spec_point_at(t), traj.spec_point_at(t + step))
}

/// The parameter the walk reaches from `t` with the given budget and probe
/// step: halve the step while its chord overshoots the budget, otherwise
/// advance and spend the step, until the budget is exhausted or the step
/// has shrunk to nothing.
pub open spec fn spec_walk<T: Trajectory>(traj: &T, t: int, budget: int, step: int) -> int
    decreases budget, step,
{
    if budget <= 0 || step <= 0 {
        t
    } else if spec_chord(traj, t, step) > budget {
        spec_walk(traj, t, budget, step / 2)
    } else if budget <= step {
        t + step
    } else {
        spec_walk(traj, t + step, budget - step, step)
    }
}

/// Advance the path parameter `t` so that the distance walked along the
/// trajectory matches `budget`, as the adaptive walk measures it.
pub fn advance_along<T: Trajectory>(traj: &T, t: i64, budget: i64) -> (r: i64)
    requires
        traj.wf(),
        0 <= t,
        0 <= budget,
        t + budget + INITIAL_STEP <= MAX_COORD,
    ensures
        r == spec_walk(traj, t as int, budget as int, INITIAL_STEP as int),
        t <= r <= t + budget,
{
    let mut cur: i64 = t;
    let mut left: i64 = budget;
    let mut step: i64 = INITIAL_STEP;
    while left > 0 && step > 0
        invariant
            traj.wf(),
            0 <= t <= cur,
            0 <= left <= budget,
            0 <= step <= INITIAL_STEP,
            cur + left == t + budget,
            t + budget + INITIAL_STEP <= MAX_COORD,
            spec_walk(traj, cur as int, left as int, step as int) == spec_walk(
                traj,
                t as int,
                budget as int,
                INITIAL_STEP as int,
            ),
        decreases left + step,
    {
        let p = traj.point_from_t(cur);
        let q = traj.point_from_t(cur + step);
        proof {
            traj.lemma_point_in_world(cur as int);
            traj.lemma_point_in_world(cur as int + step as int);
        }
        let d = p.distance(q);
        if d > left {
            step = step / 2;
        } else {
            proof {
                traj.lemma_chord_dominates_step(cur as int, step as int);
                assert(step <= d <= left);
                if left <= step {
                    assert(left == step);
                    assert(spec_walk(traj, cur as int, left as int, step as int) == cur + step);
                    assert(spec_walk(traj, (cur + step) as int, (left - step) as int, step as int)
                        == cur + step);
                }
            }
            cur = cur + step;
            left = left - step;
        }
    }
    proof {
        assert(spec_walk(traj, cur as int, left as int, step as int) == cur);
    }
    cur
}

/// On the straight road every chord equals its step exactly.
proof fn lemma_line_chord(t: int, step: int)
    requires
        0 <= step,
        -MAX_COORD <= t,
        t + step <= MAX_COORD,
    ensures
        spec_chord(&LineTrajectory {}, t, step) == step,
{
    let traj = LineTrajectory {};
    traj.lemma_chord_dominates_step(t, step);
    let p = traj.spec_point_at(t);
    let q = traj.spec_point_at(t + step);
    assert(crate::geometry::dist2(p, q) == step * step) by (nonlinear_arith)
        requires
            p.x == t,
            q.x == t + step,
            p.y == q.y,
            crate::geometry::dist2(p, q) == (p.x - q.x) * (p.x - q.x) + (p.y - q.y) * (p.y - q.y),
    ;
    crate::geometry::lemma_sqrt_floor_square(step);
}

/// On the straight road the walk spends its whole budget exactly: the
/// parameter advances by precisely the distance asked for, whatever the
/// probe step.
pub proof fn lemma_walk_line_exact(t: int, budget: int, step: int)
    requires
        0 <= t,
        0 <= budget,
        1 <= step,
        t + budget + step <= MAX_COORD,
    ensures
        spec_walk(&LineTrajectory {}, t, budget, step) == t + budget,
    decreases budget, step,
{
    let traj = LineTrajectory {};
    if budget <= 0 {
    } else {
        lemma_line_chord(t, step);
        if step > budget {
            assert(step / 2 >= 1);
            lemma_walk_line_exact(t, budget, step / 2);
        } else if budget <= step {
            assert(budget == step);
        } else {
            lemma_walk_line_exact(t + step, budget - step, step);
        }
    }
}

/// Splitting one advance along the straight road into two consecutive
/// advances reaches the same parameter as a single advance by the combined
/// budget.
pub proof fn lemma_walk_line_splits(t: int, budget1: int, budget2: int, step: int)
    requires
        0 <= t,
        0 <= budget1,
        0 <= budget2,
        1 <= step,
        t + budget1 + budget2 + step <= MAX_COORD,
    ensures
        spec_walk(
            &LineTrajectory {},
            spec_walk(&LineTrajectory {}, t, budget1, step),
            budget2,
            step,
        ) == spec_walk(&LineTrajectory {}, t, budget1 + budget2, step),
{
    lemma_walk_line_exact(t, budget1, step);
    lemma_walk_line_exact(t + budget1, budget2, step);
    lemma_walk_line_exact(t, budget1 + budget2, step);
}

} // verus!
