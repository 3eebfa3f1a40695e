//! Plane geometry over fixed-point coordinates.
//!
//! A coordinate is an `i64` number of micro-units; `UNIT` micro-units make
//! one world unit. Euclidean distances are computed exactly as the floor of
//! the real square root of the squared distance, through a verified integer
//! square root.

use vstd::prelude::*;

verus! {

/// Micro-units per world unit.
pub const UNIT: i64 = 1_000_000;

/// Largest coordinate magnitude the world admits, in micro-units.
pub const MAX_COORD: i64 = 1_000_000_000_000;

/// Whether a scalar is a coordinate the world admits.
pub open spec fn in_coord_range(c: int) -> bool {
    -MAX_COORD <= c <= MAX_COORD
}

/// A point of the plane, in micro-units.
#[derive(Debug, Clone, Copy, PartialEq, Eq, Structural)]
pub struct Point {
    pub x: i64,
    pub y: i64,
}

impl Point {
    /// Whether both coordinates are within the world.
    pub open spec fn wf(self) -> bool {
        in_coord_range(self.x as int) && in_coord_range(self.y as int)
    }
}

impl Default for Point {
    /// The point at the origin.
    fn default() -> (p: Point)
        ensures
            p == (Point { x: 0, y: 0 }),
    {
        Point { x: 0, y: 0 }
    }
}

/// The squared Euclidean distance between two points.
pub open spec fn dist2(p: Point, q: Point) -> int {
    (p.x - q.x) * (p.x - q.x) + (p.y - q.y) * (p.y - q.y)
}

/// `r` is the floor of the real square root of `n`.
pub open spec fn is_sqrt_floor(n: int, r: int) -> bool {
    0 <= r && r * r <= n && n < (r + 1) * (r + 1)
}

/// The floor of the real square root of a non-negative scalar.
pub closed spec fn sqrt_floor(n: int) -> int {
    choose|r: int| is_sqrt_floor(n, r)
}

/// Two floors of the same square root are equal.
proof fn lemma_sqrt_floor_unique(n: int, r1: int, r2: int)
    requires
        is_sqrt_floor(n, r1),
        is_sqrt_floor(n, r2),
    ensures
        r1 == r2,
{
    assert(r1 == r2) by (nonlinear_arith)
        requires
            is_sqrt_floor(n, r1),
            is_sqrt_floor(n, r2),
    ;
}

/// Every non-negative scalar has a square-root floor, and `sqrt_floor`
/// denotes it.
pub proof fn lemma_sqrt_floor_is_sqrt(n: int)
    requires
        0 <= n,
    ensures
        is_sqrt_floor(n, sqrt_floor(n)),
    decreases n,
{
    if n == 0 {
        assert(is_sqrt_floor(0, 0));
    } else {
        lemma_sqrt_floor_is_sqrt(n - 1);
        let r = sqrt_floor(n - 1);
        if n < (r + 1) * (r + 1) {
            assert(is_sqrt_floor(n, r));
        } else {
            assert(is_sqrt_floor(n, r + 1)) by (nonlinear_arith)
                requires
                    is_sqrt_floor(n - 1, r),
                    n >= (r + 1) * (r + 1),
            ;
        }
        assert(exists|s: int| is_sqrt_floor(n, s));
        lemma_sqrt_floor_unique(n, sqrt_floor(n), choose|s: int| is_sqrt_floor(n, s));
    }
}

/// Any witness of `is_sqrt_floor` equals `sqrt_floor`.
pub proof fn lemma_sqrt_floor_of(n: int, r: int)
    requires
        is_sqrt_floor(n, r),
    ensures
        sqrt_floor(n) == r,
{
    lemma_sqrt_floor_is_sqrt(n);
    lemma_sqrt_floor_unique(n, sqrt_floor(n), r);
}

/// The square-root floor of a perfect square is its root.
pub proof fn lemma_sqrt_floor_square(s: int)
    requires
        0 <= s,
    ensures
        sqrt_floor(s * s) == s,
{
    assert(is_sqrt_floor(s * s, s)) by (nonlinear_arith)
        requires
            0 <= s,
    ;
    lemma_sqrt_floor_of(s * s, s);
}

/// The square-root floor is monotone.
pub proof fn lemma_sqrt_floor_monotone(a: int, b: int)
    requires
        0 <= a <= b,
    ensures
        sqrt_floor(a) <= sqrt_floor(b),
{
    lemma_sqrt_floor_is_sqrt(a);
    lemma_sqrt_floor_is_sqrt(b);
    assert(sqrt_floor(a) <= sqrt_floor(b)) by (nonlinear_arith)
        requires
            is_sqrt_floor(a, sqrt_floor(a)),
            is_sqrt_floor(b, sqrt_floor(b)),
            a <= b,
    ;
}

/// Largest argument `isqrt` accepts; twice the square of the largest
/// coordinate span, so that every squared distance of the world fits.
pub const MAX_SQUARE_ARG: u128 = 8_000_000_000_000_000_000_000_000;

/// Integer square root by binary search: the floor of the real square root.
pub fn isqrt(n: u128) -> (r: u128)
    requires
        n <= MAX_SQUARE_ARG,
    ensures
        is_sqrt_floor(n as int, r as int),
        r as int == sqrt_floor(n as int),
{
    let mut lo: u128 = 0;
    let mut hi: u128 = 3_000_000_000_000;
    proof {
        assert((hi + 1) * (hi + 1) > MAX_SQUARE_ARG) by (nonlinear_arith)
            requires
                hi == 3_000_000_000_000u128,
        ;
    }
    while lo < hi
        invariant
            0 <= lo <= hi <= 3_000_000_000_000,
            lo * lo <= n,
            n < (hi + 1) * (hi + 1),
        decreases hi - lo,
    {
        let mid = lo + (hi - lo + 1) / 2;
        proof {
            let m = mid as int;
            assert(m * m <= 3_000_000_000_001 * 3_000_000_000_001) by (nonlinear_arith)
                requires
                    0 <= m <= 3_000_000_000_001,
            ;
        }
        if mid * mid <= n {
            lo = mid;
        } else {
            hi = mid - 1;
        }
    }
    proof {
        lemma_sqrt_floor_of(n as int, lo as int);
    }
    lo
}

/// The distance between two in-range points, as specifications see it: the
/// floor of the real Euclidean distance.
pub open spec fn spec_distance(p: Point, q: Point) -> int {
    sqrt_floor(dist2(p, q))
}

/// Distances between in-range points fit comfortably in `i64`.
pub proof fn lemma_distance_bounds(p: Point, q: Point)
    requires
        p.wf(),
        q.wf(),
    ensures
        0 <= dist2(p, q) <= MAX_SQUARE_ARG,
        0 <= spec_distance(p, q) <= 3_000_000_000_000,
{
    assert(0 <= dist2(p, q) <= MAX_SQUARE_ARG) by (nonlinear_arith)
        requires
            p.wf(),
            q.wf(),
    ;
    lemma_sqrt_floor_is_sqrt(dist2(p, q));
    assert(sqrt_floor(dist2(p, q)) <= 3_000_000_000_000) by (nonlinear_arith)
        requires
            is_sqrt_floor(dist2(p, q), sqrt_floor(dist2(p, q))),
            dist2(p, q) <= MAX_SQUARE_ARG,
    ;
}

/// One coordinate's share of a straight move: `delta * m / d`, with the
/// division truncated toward zero as machine division is.
pub open spec fn spec_scaled_offset(delta: int, m: int, d: int) -> int {
    if delta >= 0 {
        (delta * m) / d
    } else {
        -(((-delta) * m) / d)
    }
}

/// The point reached by moving `m` micro-units from `p` straight toward `q`.
pub open spec fn spec_step_toward(p: Point, q: Point, m: int) -> Point {
    let d = spec_distance(p, q);
    Point {
        x: (p.x + spec_scaled_offset(q.x - p.x, m, d)) as i64,
        y: (p.y + spec_scaled_offset(q.y - p.y, m, d)) as i64,
    }
}

/// A move shorter than the whole distance stays between the coordinates of
/// its endpoints.
proof fn lemma_scaled_offset_bounds(delta: int, m: int, d: int)
    requires
        0 <= m < d,
    ensures
        delta >= 0 ==> 0 <= spec_scaled_offset(delta, m, d) <= delta,
        delta < 0 ==> delta <= spec_scaled_offset(delta, m, d) <= 0,
{
    let a = if delta >= 0 {
        delta
    } else {
        -delta
    };
    assert(0 <= a * m <= a * d) by (nonlinear_arith)
        requires
            0 <= a,
            0 <= m < d,
    ;
    vstd::arithmetic::div_mod::lemma_div_pos_is_pos(a * m, d);
    vstd::arithmetic::div_mod::lemma_div_is_ordered(a * m, a * d, d);
    assert((a * d) / d == a) by (nonlinear_arith)
        requires
            d >= 1,
    ;
}

impl Point {
    /// Move `m` micro-units from this point straight toward `target`;
    /// `m` must fall short of the distance between the two.
    pub fn step_toward(self, target: Point, m: i64) -> (p: Point)
        requires
            self.wf(),
            target.wf(),
            0 <= m < spec_distance(self, target),
        ensures
            p == spec_step_toward(self, target, m as int),
            p.wf(),
    {
        proof {
            lemma_distance_bounds(self, target);
        }
        let d = self.distance(target);
        proof {
            lemma_scaled_offset_bounds(target.x as int - self.x as int, m as int, d as int);
            lemma_scaled_offset_bounds(target.y as int - self.y as int, m as int, d as int);
            assert(0 <= (2_000_000_000_000 as u128) * (m as u128) <= (2_000_000_000_000 as u128)
                * (3_000_000_000_000 as u128)) by (nonlinear_arith)
                requires
                    0 <= m as u128 <= 3_000_000_000_000,
            ;
        }
        let x = Self::offset_coord(self.x, target.x, m, d);
        let y = Self::offset_coord(self.y, target.y, m, d);
        Point { x, y }
    }

    /// One coordinate of a straight move of `m` out of `d` toward a target.
    fn offset_coord(from: i64, to: i64, m: i64, d: i64) -> (c: i64)
        requires
            in_coord_range(from as int),
            in_coord_range(to as int),
            0 <= m < d <= 3_000_000_000_000,
        ensures
            c == from + spec_scaled_offset(to - from, m as int, d as int),
            in_coord_range(c as int),
    {
        proof {
            lemma_scaled_offset_bounds(to as int - from as int, m as int, d as int);
        }
        if to >= from {
            let delta: u128 = (to - from) as u128;
            proof {
                assert(delta * (m as u128) <= 6_000_000_000_000_000_000_000_000) by (
                nonlinear_arith)
                    requires
                        0 <= delta <= 2_000_000_000_000,
                        0 <= m as u128 <= 3_000_000_000_000,
                ;
            }
            let off: u128 = (delta * m as u128) / d as u128;
            from + off as i64
        } else {
            let delta: u128 = (from - to) as u128;
            proof {
                assert(delta * (m as u128) <= 6_000_000_000_000_000_000_000_000) by (
                nonlinear_arith)
                    requires
                        0 <= delta <= 2_000_000_000_000,
                        0 <= m as u128 <= 3_000_000_000_000,
                ;
            }
            let off: u128 = (delta * m as u128) / d as u128;
            from - off as i64
        }
    }

    /// The Euclidean distance to `rhs`, rounded down to whole micro-units.
    pub fn distance(self, rhs: Point) -> (d: i64)
        requires
            self.wf(),
            rhs.wf(),
        ensures
            d == spec_distance(self, rhs),
            0 <= d <= 3_000_000_000_000,
    {
        proof {
            lemma_distance_bounds(self, rhs);
        }
        let dx: i128 = self.x as i128 - rhs.x as i128;
        let dy: i128 = self.y as i128 - rhs.y as i128;
        proof {
            assert(0 <= dx * dx <= 4_000_000_000_000_000_000_000_000 && 0 <= dy * dy
                <= 4_000_000_000_000_000_000_000_000) by (nonlinear_arith)
                requires
                    -2_000_000_000_000 <= dx <= 2_000_000_000_000,
                    -2_000_000_000_000 <= dy <= 2_000_000_000_000,
            ;
        }
        let n: u128 = (dx * dx + dy * dy) as u128;
        let r = isqrt(n);
        r as i64
    }
}

} // verus!
