//! The path enemies travel along.
//!
//! A trajectory maps a scalar path parameter `t` to a point of the plane,
//! deterministically and without side effects, for every parameter the world
//! admits. Implementations promise two laws the movement algorithm leans on:
//! points stay within the world, and moving the parameter forward by a step
//! covers at least that step's worth of distance (the coordinate along the
//! road grows exactly with `t`).

use vstd::arithmetic::div_mod::{
    lemma_div_is_ordered, lemma_div_pos_is_pos, lemma_fundamental_div_mod,
    lemma_mod_division_less_than_divisor, lemma_multiply_divide_lt,
};
use vstd::prelude::*;

use crate::geometry::{
    dist2, in_coord_range, lemma_sqrt_floor_monotone, lemma_sqrt_floor_square, spec_distance,
    Point, MAX_COORD,
};

verus! {

/// A pure map from path parameter to world point.
pub trait Trajectory: Sized {
    /// The point of the path at parameter `t`.
    spec fn spec_point_at(&self, t: int) -> Point;

    /// Whether the path is well-formed.
    spec fn wf(&self) -> bool;

    /// Parameters within the world map to points within the world.
    proof fn lemma_point_in_world(&self, t: int)
        requires
            self.wf(),
            -MAX_COORD <= t <= MAX_COORD,
        ensures
            self.spec_point_at(t).wf(),
    ;

    /// Advancing the parameter by a step covers at least that step of
    /// distance: the chord never falls short of the parameter step.
    proof fn lemma_chord_dominates_step(&self, t: int, step: int)
        requires
            self.wf(),
            0 <= step,
            -MAX_COORD <= t,
            t + step <= MAX_COORD,
        ensures
            spec_distance(self.spec_point_at(t), self.spec_point_at(t + step)) >= step,
    ;

    /// The point of the path at parameter `t`.
    fn point_from_t(&self, t: i64) -> (p: Point)
        requires
            self.wf(),
            -MAX_COORD <= t <= MAX_COORD,
        ensures
            p == self.spec_point_at(t as int),
    ;
}

/// The straight horizontal road: parameter `t` maps to `(t, 0)`.
#[derive(Debug, Clone, Copy, PartialEq, Eq, Structural)]
pub struct LineTrajectory {}

impl Trajectory for LineTrajectory {
    open spec fn spec_point_at(&self, t: int) -> Point {
        Point { x: t as i64, y: 0 }
    }

    open spec fn wf(&self) -> bool {
        true
    }

    proof fn lemma_point_in_world(&self, t: int) {
    }

    proof fn lemma_chord_dominates_step(&self, t: int, step: int) {
        let p = self.spec_point_at(t);
        let q = self.spec_point_at(t + step);
        assert(dist2(p, q) == step * step) by (nonlinear_arith)
            requires
                p.x == t,
                q.x == t + step,
                p.y == q.y,
                dist2(p, q) == (p.x - q.x) * (p.x - q.x) + (p.y - q.y) * (p.y - q.y),
        ;
        lemma_sqrt_floor_square(step);
    }

    fn point_from_t(&self, t: i64) -> (p: Point) {
        Point { x: t, y: 0 }
    }
}

/// Linear interpolation of the sampled heights: walk `frac` of the way
/// (out of `spacing`) from `y0` towards `y1`.
pub open spec fn spec_interp(y0: int, y1: int, frac: int, spacing: int) -> int {
    if y1 >= y0 {
        y0 + ((y1 - y0) * frac) / spacing
    } else {
        y0 - (((y0 - y1) * frac) / spacing)
    }
}

/// The interpolated height stays between the two samples.
proof fn lemma_interp_bounds(y0: int, y1: int, frac: int, spacing: int)
    requires
        1 <= spacing,
        0 <= frac < spacing,
    ensures
        y1 >= y0 ==> y0 <= spec_interp(y0, y1, frac, spacing) <= y1,
        y1 < y0 ==> y1 <= spec_interp(y0, y1, frac, spacing) <= y0,
{
    let dy = if y1 >= y0 {
        y1 - y0
    } else {
        y0 - y1
    };
    assert(dy * frac >= 0) by (nonlinear_arith)
        requires
            dy >= 0,
            frac >= 0,
    ;
    lemma_div_pos_is_pos(dy * frac, spacing);
    assert(dy * frac <= dy * spacing) by (nonlinear_arith)
        requires
            dy >= 0,
            frac < spacing,
    ;
    lemma_div_is_ordered(dy * frac, dy * spacing, spacing);
    assert((dy * spacing) / spacing == dy) by (nonlinear_arith)
        requires
            spacing >= 1,
    ;
}

/// Executable linear interpolation between two sampled heights.
fn interp(y0: i64, y1: i64, frac: i64, spacing: i64) -> (y: i64)
    requires
        in_coord_range(y0 as int),
        in_coord_range(y1 as int),
        1 <= spacing <= MAX_COORD,
        0 <= frac < spacing,
    ensures
        y == spec_interp(y0 as int, y1 as int, frac as int, spacing as int),
        in_coord_range(y as int),
{
    proof {
        lemma_interp_bounds(y0 as int, y1 as int, frac as int, spacing as int);
    }
    if y1 >= y0 {
        let dy: i128 = y1 as i128 - y0 as i128;
        proof {
            assert(0 <= dy * (frac as i128) <= 2_000_000_000_000_000_000_000_000) by (
            nonlinear_arith)
                requires
                    0 <= dy <= 2_000_000_000_000,
                    0 <= frac as i128 <= 1_000_000_000_000,
            ;
        }
        let q: i128 = (dy * frac as i128) / spacing as i128;
        y0 + q as i64
    } else {
        let dy: i128 = y0 as i128 - y1 as i128;
        proof {
            assert(0 <= dy * (frac as i128) <= 2_000_000_000_000_000_000_000_000) by (
            nonlinear_arith)
                requires
                    0 <= dy <= 2_000_000_000_000,
                    0 <= frac as i128 <= 1_000_000_000_000,
            ;
        }
        let q: i128 = (dy * frac as i128) / spacing as i128;
        y0 - q as i64
    }
}

/// A road given by equally spaced height samples: the point at parameter `t`
/// is `(t, y)` where `y` interpolates linearly between the two samples around
/// `t`, and holds the boundary sample beyond either end.
#[derive(Debug, Clone)]
pub struct SampledTrajectory {
    /// Sampled heights, one every `spacing` micro-units of `t`.
    pub ys: Vec<i64>,
    /// Parameter distance between neighbouring samples.
    pub spacing: i64,
}

/// The interpolated height of the sampled road at parameter `t`.
pub open spec fn spec_sample_y(ys: Seq<i64>, spacing: int, t: int) -> int {
    let n = ys.len() as int;
    if t < 0 {
        ys[0] as int
    } else if t >= (n - 1) * spacing {
        ys[n - 1] as int
    } else {
        let k = t / spacing;
        spec_interp(ys[k] as int, ys[k + 1] as int, t - k * spacing, spacing)
    }
}

impl SampledTrajectory {
    /// Build a sampled road, rejecting malformed sample tables.
    pub fn new(ys: Vec<i64>, spacing: i64) -> (r: Option<SampledTrajectory>)
        ensures
            match r {
                Some(tr) => tr.wf() && tr.ys@ == ys@ && tr.spacing == spacing,
                None => !(SampledTrajectory { ys, spacing }).wf(),
            },
    {
        if ys.len() < 2 || spacing < 1 || spacing > MAX_COORD {
            return None;
        }
        let max_samples: u64 = (MAX_COORD as u64) / (spacing as u64);
        proof {
            lemma_fundamental_div_mod(MAX_COORD as int, spacing as int);
            lemma_mod_division_less_than_divisor(MAX_COORD as int, spacing as int);
            lemma_div_pos_is_pos(MAX_COORD as int, spacing as int);
        }
        if (ys.len() - 1) as u64 > max_samples {
            proof {
                let n = ys@.len() as int;
                let s = spacing as int;
                assert((n - 1) * s > MAX_COORD) by (nonlinear_arith)
                    requires
                        s >= 1,
                        n - 1 > (MAX_COORD as int) / s,
                        s * ((MAX_COORD as int) / s) + s > MAX_COORD as int,
                ;
            }
            return None;
        }
        proof {
            let n = ys@.len() as int;
            let s = spacing as int;
            assert((n - 1) * s <= MAX_COORD) by (nonlinear_arith)
                requires
                    s >= 1,
                    n >= 2,
                    n - 1 <= (MAX_COORD as int) / s,
                    s * ((MAX_COORD as int) / s) <= MAX_COORD as int,
            ;
        }
        let mut i: usize = 0;
        while i < ys.len()
            invariant
                0 <= i <= ys.len(),
                forall|j: int| 0 <= j < i ==> in_coord_range(ys@[j] as int),
            decreases ys.len() - i,
        {
            let y = ys[i];
            if y < -MAX_COORD || y > MAX_COORD {
                return None;
            }
            i += 1;
        }
        Some(SampledTrajectory { ys, spacing })
    }
}

impl Trajectory for SampledTrajectory {
    open spec fn spec_point_at(&self, t: int) -> Point {
        Point { x: t as i64, y: spec_sample_y(self.ys@, self.spacing as int, t) as i64 }
    }

    open spec fn wf(&self) -> bool {
        &&& 1 <= self.spacing <= MAX_COORD
        &&& 2 <= self.ys@.len()
        &&& (self.ys@.len() - 1) * self.spacing <= MAX_COORD
        &&& forall|i: int| 0 <= i < self.ys@.len() ==> in_coord_range(self.ys@[i] as int)
    }

    proof fn lemma_point_in_world(&self, t: int) {
        self.lemma_sample_y_in_range(t);
    }

    proof fn lemma_chord_dominates_step(&self, t: int, step: int) {
        let p = self.spec_point_at(t);
        let q = self.spec_point_at(t + step);
        self.lemma_sample_y_in_range(t);
        self.lemma_sample_y_in_range(t + step);
        let dy = q.y - p.y;
        assert(dist2(p, q) >= step * step) by (nonlinear_arith)
            requires
                p.x == t,
                q.x == t + step,
                dy == q.y - p.y,
                dist2(p, q) == (p.x - q.x) * (p.x - q.x) + (p.y - q.y) * (p.y - q.y),
        ;
        lemma_sqrt_floor_square(step);
        lemma_sqrt_floor_monotone(step * step, dist2(p, q));
    }

    fn point_from_t(&self, t: i64) -> (p: Point) {
        proof {
            self.lemma_sample_y_in_range(t as int);
            let n = self.ys@.len() as int;
            assert(n - 1 <= (n - 1) * self.spacing) by (nonlinear_arith)
                requires
                    self.spacing >= 1,
                    n >= 2,
            ;
        }
        let n = self.ys.len();
        let y: i64 = if t < 0 {
            self.ys[0]
        } else {
            let end: i64 = (n - 1) as i64 * self.spacing;
            if t >= end {
                self.ys[n - 1]
            } else {
                proof {
                    lemma_multiply_divide_lt(t as int, self.spacing as int, (n - 1) as int);
                    lemma_div_pos_is_pos(t as int, self.spacing as int);
                    lemma_fundamental_div_mod(t as int, self.spacing as int);
                    lemma_mod_division_less_than_divisor(t as int, self.spacing as int);
                }
                let k: usize = (t as u64 / self.spacing as u64) as usize;
                let frac: i64 = (t as u64 % self.spacing as u64) as i64;
                proof {
                    assert(k < n - 1);
                    assert(in_coord_range(self.ys@[k as int] as int));
                    assert(in_coord_range(self.ys@[k as int + 1] as int));
                }
                interp(self.ys[k], self.ys[k + 1], frac, self.spacing)
            }
        };
        Point { x: t, y }
    }
}

impl SampledTrajectory {
    /// The interpolated height never leaves the range of the samples.
    proof fn lemma_sample_y_in_range(&self, t: int)
        requires
            self.wf(),
        ensures
            in_coord_range(spec_sample_y(self.ys@, self.spacing as int, t)),
    {
        let ys = self.ys@;
        let s = self.spacing as int;
        let n = ys.len() as int;
        if t < 0 {
            assert(in_coord_range(ys[0] as int));
        } else if t >= (n - 1) * s {
            assert(in_coord_range(ys[n - 1] as int));
        } else {
            lemma_div_pos_is_pos(t, s);
            lemma_multiply_divide_lt(t, s, n - 1);
            let k = t / s;
            lemma_fundamental_div_mod(t, s);
            lemma_mod_division_less_than_divisor(t, s);
            assert(t - k * s == t % s);
            assert(in_coord_range(ys[k] as int));
            assert(in_coord_range(ys[k + 1] as int));
            lemma_interp_bounds(ys[k] as int, ys[k + 1] as int, t - k * s, s);
        }
    }
}

} // verus!
