use vstd::prelude::*;
use vstd::arithmetic::mul::*;

use crate::calc::Calc;
use crate::utils::Point;

verus! {

/// The greatest magnitude of a coordinate whose distances can be measured.
pub const COORD_MAX: i64 = 0x2000_0000_0000_0000;

/// Whether a coordinate is within `COORD_MAX` of zero.
pub open spec fn coord_ok(v: int) -> bool {
    -COORD_MAX <= v <= COORD_MAX
}

/// The square of the Euclidean distance between two locations.
pub open spec fn square_distance(ax: int, ay: int, az: int, bx: int, by: int, bz: int) -> int {
    (bx - ax) * (bx - ax) + (by - ay) * (by - ay) + (bz - az) * (bz - az)
}

/// Whether `r` is the square root of `n` with its fraction cut off.
pub open spec fn is_floor_sqrt(r: int, n: int) -> bool {
    0 <= r && r * r <= n < (r + 1) * (r + 1)
}

/// Whether a target in the plane of the arm is within two link lengths of the
/// origin.
pub open spec fn reach_spec(calc: Calc, x: int, y: int) -> bool {
    calc.radius >= 0 && square_distance(calc.origin.x as int, calc.origin.y as int, 0, x, y, 0)
        <= (2 * calc.radius) * (2 * calc.radius)
}

/// Whether a target in space is within two link lengths of the origin.
pub open spec fn reach_spec_3d(calc: Calc, x: int, y: int, z: int) -> bool {
    calc.radius >= 0 && square_distance(
        calc.origin.x as int,
        calc.origin.y as int,
        calc.origin.z as int,
        x,
        y,
        z,
    ) <= (2 * calc.radius) * (2 * calc.radius)
}

/// A number has one floor square root.
pub proof fn lemma_floor_sqrt_unique(r: int, s: int, n: int)
    requires
        is_floor_sqrt(r, n),
        is_floor_sqrt(s, n),
    ensures
        r == s,
{
    if r < s {
        lemma_mul_inequality(r + 1, s, r + 1);
        lemma_mul_inequality(r + 1, s, s);
        lemma_mul_is_commutative(r + 1, s);
    } else if s < r {
        lemma_mul_inequality(s + 1, r, s + 1);
        lemma_mul_inequality(s + 1, r, r);
        lemma_mul_is_commutative(s + 1, r);
    }
}

/// The square of the difference of two 64-bit values fits in 128 bits.
proof fn lemma_gap_square(d: int)
    requires
        0 <= d <= 0xffff_ffff_ffff_ffff,
    ensures
        0 <= d * d <= 0xffff_ffff_ffff_fffe_0000_0000_0000_0001,
{
    lemma_mul_nonnegative(d, d);
    lemma_mul_upper_bound(d, 0xffff_ffff_ffff_ffff, d, 0xffff_ffff_ffff_ffff);
}

/// The square of the difference of two coordinates within `COORD_MAX`.
proof fn lemma_coord_square(a: int, b: int)
    requires
        coord_ok(a),
        coord_ok(b),
    ensures
        0 <= (b - a) * (b - a) <= 0x1000_0000_0000_0000_0000_0000_0000_0000,
{
    let d = if b >= a {
        b - a
    } else {
        a - b
    };
    assert((b - a) * (b - a) == d * d) by (nonlinear_arith)
        requires
            d == b - a || d == a - b,
    ;
    lemma_mul_nonnegative(d, d);
    lemma_mul_upper_bound(d, 0x4000_0000_0000_0000, d, 0x4000_0000_0000_0000);
}

/// The distance between two values, as an unsigned number.
fn gap(a: i64, b: i64) -> (d: u128)
    ensures
        d == if b >= a {
            b - a
        } else {
            a - b
        },
        d <= 0xffff_ffff_ffff_ffff,
        d * d == (b - a) * (b - a),
{
    let d: i128 = if b >= a {
        b as i128 - a as i128
    } else {
        a as i128 - b as i128
    };
    assert(d * d == (b - a) * (b - a)) by (nonlinear_arith)
        requires
            d == b - a || d == a - b,
    ;
    d as u128
}

/// The square root of `n` with its fraction cut off, found by bisection.
fn floor_sqrt(n: u128) -> (r: u128)
    ensures
        is_floor_sqrt(r as int, n as int),
        r <= 0xffff_ffff_ffff_ffff,
{
    let mut lo: u128 = 0;
    let mut hi: u128 = 0x1_0000_0000_0000_0000;
    assert(hi * hi == 0x1_0000_0000_0000_0000_0000_0000_0000_0000) by (nonlinear_arith)
        requires
            hi == 0x1_0000_0000_0000_0000,
    ;
    while hi - lo > 1
        invariant
            lo < hi <= 0x1_0000_0000_0000_0000,
            lo * lo <= n < hi * hi,
        decreases hi - lo,
    {
        let mid: u128 = lo + (hi - lo) / 2;
        proof {
            lemma_gap_square(mid as int);
        }
        if mid * mid <= n {
            lo = mid;
        } else {
            hi = mid;
        }
    }
    lo
}

impl Calc {
    /// The distance between two locations in the plane, its fraction cut off.
    pub fn dist(start_x: i64, start_y: i64, end_x: i64, end_y: i64) -> (d: i64)
        requires
            coord_ok(start_x as int),
            coord_ok(start_y as int),
            coord_ok(end_x as int),
            coord_ok(end_y as int),
        ensures
            is_floor_sqrt(
                d as int,
                square_distance(start_x as int, start_y as int, 0, end_x as int, end_y as int, 0),
            ),
    {
        let dx: u128 = gap(start_x, end_x);
        let dy: u128 = gap(start_y, end_y);
        proof {
            lemma_coord_square(start_x as int, end_x as int);
            lemma_coord_square(start_y as int, end_y as int);
        }
        let n: u128 = dx * dx + dy * dy;
        let r: u128 = floor_sqrt(n);
        assert(r < 0x8000_0000_0000_0000) by (nonlinear_arith)
            requires
                0 <= r,
                r * r <= n,
                n <= 0x2000_0000_0000_0000_0000_0000_0000_0000,
        ;
        r as i64
    }

    /// The distance between two locations in space, its fraction cut off.
    pub fn dist_3d(start: &Point, end: &Point) -> (d: i64)
        requires
            coord_ok(start.x as int),
            coord_ok(start.y as int),
            coord_ok(start.z as int),
            coord_ok(end.x as int),
            coord_ok(end.y as int),
            coord_ok(end.z as int),
        ensures
            is_floor_sqrt(
                d as int,
                square_distance(
                    start.x as int,
                    start.y as int,
                    start.z as int,
                    end.x as int,
                    end.y as int,
                    end.z as int,
                ),
            ),
    {
        let dx: u128 = gap(start.x, end.x);
        let dy: u128 = gap(start.y, end.y);
        let dz: u128 = gap(start.z, end.z);
        proof {
            lemma_coord_square(start.x as int, end.x as int);
            lemma_coord_square(start.y as int, end.y as int);
            lemma_coord_square(start.z as int, end.z as int);
        }
        let n: u128 = dx * dx + dy * dy + dz * dz;
        let r: u128 = floor_sqrt(n);
        assert(r < 0x8000_0000_0000_0000) by (nonlinear_arith)
            requires
                0 <= r,
                r * r <= n,
                n <= 0x3000_0000_0000_0000_0000_0000_0000_0000,
        ;
        r as i64
    }

    /// Tells whether the arm can reach the target `(x, y)` in its own plane:
    /// whether the target is no farther than two link lengths from the origin.
    /// The comparison is exact, and a negative radius reaches nothing.
    pub fn reaches(&self, x: i64, y: i64) -> (within: bool)
        ensures
            within == reach_spec(*self, x as int, y as int),
    {
        if self.radius < 0 {
            return false;
        }
        let dx: u128 = gap(self.origin.x, x);
        let dy: u128 = gap(self.origin.y, y);
        let reach: u128 = 2 * (self.radius as u128);
        proof {
            lemma_gap_square(dx as int);
            lemma_gap_square(dy as int);
            lemma_gap_square(reach as int);
        }
        let limit: u128 = reach * reach;
        let sx: u128 = dx * dx;
        let sy: u128 = dy * dy;
        sx <= limit && sy <= limit - sx
    }

    /// Tells whether the arm can reach the target `(x, y, z)` in space.
    pub fn reaches_3d(&self, x: i64, y: i64, z: i64) -> (within: bool)
        ensures
            within == reach_spec_3d(*self, x as int, y as int, z as int),
    {
        if self.radius < 0 {
            return false;
        }
        let dx: u128 = gap(self.origin.x, x);
        let dy: u128 = gap(self.origin.y, y);
        let dz: u128 = gap(self.origin.z, z);
        let reach: u128 = 2 * (self.radius as u128);
        proof {
            lemma_gap_square(dx as int);
            lemma_gap_square(dy as int);
            lemma_gap_square(dz as int);
            lemma_gap_square(reach as int);
        }
        let limit: u128 = reach * reach;
        let sx: u128 = dx * dx;
        let sy: u128 = dy * dy;
        let sz: u128 = dz * dz;
        sx <= limit && sy <= limit - sx && sz <= limit - sx - sy
    }
}

} // verus!
