use vstd::prelude::*;
use vstd::arithmetic::div_mod::*;
use vstd::arithmetic::mul::*;

use crate::calc::Calc;

verus! {

/// The fixed-point image of the ratio 1: a ratio between 0 and 1 is held as an
/// integer between 0 and `ONE`.
pub const ONE: i64 = 0x8000_0000;

/// The factor by which the curve is stretched before its fraction is cut off.
pub const GAIN: i64 = 1000;

/// The eighth power of one half, as a divisor: the curve is taken of half the
/// ratio of a point's offset to the width.
pub const HALVING: i64 = 256;

/// The greatest point that `smooth` takes.
pub const POINT_MAX: i64 = 9_000_000_000_000_000;

/// Twice the distance of `p` from the middle of `0 ..= m`.
pub open spec fn offset_spec(p: int, m: int) -> int {
    if 2 * p >= m {
        2 * p - m
    } else {
        m - 2 * p
    }
}

/// The ratio `c / m` in fixed point.
pub open spec fn ratio_spec(c: int, m: int) -> int
    recommends
        0 <= c <= m,
        0 < m,
{
    (c * ONE) / (m as int)
}

/// The square of a fixed-point ratio.
pub open spec fn square_spec(r: int) -> int {
    (r * r) / (ONE as int)
}

/// The eighth power of a fixed-point ratio, by squaring three times.
pub open spec fn eighth_spec(r: int) -> int {
    square_spec(square_spec(square_spec(r)))
}

/// The height of the curve at a point whose doubled distance from the middle
/// of `0 ..= m` is `c`: a polynomial of degree eight in `c / m` with its valley
/// at the middle, on a floor of `GAIN * m`.
pub open spec fn curve_spec(c: int, m: int) -> int
    recommends
        0 <= c <= m,
        0 < m,
{
    GAIN * m + (GAIN * m * eighth_spec(ratio_spec(c, m))) / (HALVING * ONE)
}

/// The smoothed value of the point `p` of a sequence that spans `0 ..= m`.
pub open spec fn smooth_value(p: int, m: int) -> int
    recommends
        0 <= p <= m,
        0 < m,
{
    curve_spec(offset_spec(p, m), m)
}

/// The sequences that `smooth` takes: no point is negative or beyond the last
/// one, which is below `POINT_MAX`.
pub open spec fn smooth_domain(points: Seq<i64>) -> bool {
    points.len() > 0 ==> {
        &&& points.last() < POINT_MAX
        &&& forall|k: int| 0 <= k < points.len() ==> 0 <= #[trigger] points[k] <= points.last()
    }
}

/// A ratio of a part to the whole lies between 0 and `ONE`.
pub proof fn lemma_ratio_bounds(c: int, m: int)
    requires
        0 <= c <= m,
        0 < m,
    ensures
        0 <= ratio_spec(c, m) <= ONE,
{
    lemma_mul_nonnegative(c, ONE as int);
    lemma_mul_inequality(c, m, ONE as int);
    lemma_div_is_ordered(c * ONE, m * ONE, m);
    lemma_mul_is_commutative(m, ONE as int);
    lemma_div_by_multiple(ONE as int, m);
    lemma_div_pos_is_pos(c * ONE, m);
}

/// The ratio grows with the part.
pub proof fn lemma_ratio_monotone(c: int, d: int, m: int)
    requires
        0 <= c <= d,
        0 < m,
    ensures
        ratio_spec(c, m) <= ratio_spec(d, m),
{
    lemma_mul_inequality(c, d, ONE as int);
    lemma_div_is_ordered(c * ONE, d * ONE, m);
}

/// The square of a ratio is a ratio, and no greater than the ratio itself.
pub proof fn lemma_square_bounds(r: int)
    requires
        0 <= r <= ONE,
    ensures
        0 <= square_spec(r) <= r,
{
    lemma_mul_nonnegative(r, r);
    lemma_mul_inequality(r, ONE as int, r);
    lemma_div_is_ordered(r * r, ONE * r, ONE as int);
    lemma_mul_is_commutative(ONE as int, r);
    lemma_div_by_multiple(r, ONE as int);
    lemma_div_pos_is_pos(r * r, ONE as int);
}

/// Squaring keeps the order of ratios.
pub proof fn lemma_square_monotone(r: int, s: int)
    requires
        0 <= r <= s,
    ensures
        square_spec(r) <= square_spec(s),
{
    lemma_mul_inequality(r, s, r);
    lemma_mul_inequality(r, s, s);
    lemma_mul_is_commutative(r, s);
    lemma_div_is_ordered(r * r, s * s, ONE as int);
}

/// The eighth power of a ratio is a ratio.
pub proof fn lemma_eighth_bounds(r: int)
    requires
        0 <= r <= ONE,
    ensures
        0 <= eighth_spec(r) <= r,
{
    lemma_square_bounds(r);
    lemma_square_bounds(square_spec(r));
    lemma_square_bounds(square_spec(square_spec(r)));
}

/// The eighth power keeps the order of ratios.
pub proof fn lemma_eighth_monotone(r: int, s: int)
    requires
        0 <= r <= s <= ONE,
    ensures
        eighth_spec(r) <= eighth_spec(s),
{
    lemma_square_bounds(r);
    lemma_square_bounds(square_spec(r));
    lemma_square_monotone(r, s);
    lemma_square_monotone(square_spec(r), square_spec(s));
    lemma_square_monotone(square_spec(square_spec(r)), square_spec(square_spec(s)));
}

/// The curve stays between its floor and the floor raised by one part in
/// `HALVING`.
pub proof fn lemma_curve_bounds(c: int, m: int)
    requires
        0 <= c <= m,
        0 < m,
    ensures
        GAIN * m <= curve_spec(c, m) <= GAIN * m + (GAIN * m) / (HALVING as int),
{
    let e = eighth_spec(ratio_spec(c, m));
    lemma_ratio_bounds(c, m);
    lemma_eighth_bounds(ratio_spec(c, m));
    let g = GAIN * m;
    lemma_mul_nonnegative(g, e);
    lemma_div_pos_is_pos(g * e, HALVING * ONE);
    lemma_mul_inequality(e, ONE as int, g);
    lemma_mul_is_commutative(g, e);
    lemma_mul_is_commutative(g, ONE as int);
    lemma_div_is_ordered(g * e, g * ONE, HALVING * ONE);
    assert((g * ONE) / (HALVING * ONE) == g / (HALVING as int)) by {
        lemma_div_denominator(g * ONE, ONE as int, HALVING as int);
        lemma_div_by_multiple(g, ONE as int);
    }
}

/// The curve rises with the distance from the middle.
pub proof fn lemma_curve_monotone(c: int, d: int, m: int)
    requires
        0 <= c <= d <= m,
        0 < m,
    ensures
        curve_spec(c, m) <= curve_spec(d, m),
{
    lemma_ratio_bounds(c, m);
    lemma_ratio_bounds(d, m);
    lemma_ratio_monotone(c, d, m);
    lemma_eighth_monotone(ratio_spec(c, m), ratio_spec(d, m));
    lemma_eighth_bounds(ratio_spec(c, m));
    let g = GAIN * m;
    let e = eighth_spec(ratio_spec(c, m));
    let f = eighth_spec(ratio_spec(d, m));
    lemma_mul_inequality(e, f, g);
    lemma_mul_is_commutative(g, e);
    lemma_mul_is_commutative(g, f);
    lemma_div_is_ordered(g * e, g * f, HALVING * ONE);
}

/// Two points at the same distance from the middle, one on each side, have the
/// same smoothed value.
pub proof fn lemma_smooth_symmetric(p: int, m: int)
    ensures
        smooth_value(p, m) == smooth_value(m - p, m),
{
}

impl Calc {
    /// The smoothed value of one point.
    fn smooth_one(p: i64, m: i64) -> (value: i64)
        requires
            0 <= p <= m,
            0 < m <= POINT_MAX,
        ensures
            value == smooth_value(p as int, m as int),
    {
        let c: i64 = if 2 * p >= m {
            2 * p - m
        } else {
            m - 2 * p
        };
        proof {
            lemma_ratio_bounds(c as int, m as int);
            lemma_mul_upper_bound(c as int, POINT_MAX as int, ONE as int, ONE as int);
            lemma_mul_nonnegative(c as int, ONE as int);
        }
        let r: i128 = (c as i128 * ONE as i128) / (m as i128);
        proof {
            lemma_square_bounds(r as int);
            lemma_mul_upper_bound(r as int, ONE as int, r as int, ONE as int);
            lemma_mul_nonnegative(r as int, r as int);
        }
        let r2: i128 = (r * r) / (ONE as i128);
        proof {
            lemma_square_bounds(r2 as int);
            lemma_mul_upper_bound(r2 as int, ONE as int, r2 as int, ONE as int);
            lemma_mul_nonnegative(r2 as int, r2 as int);
        }
        let r4: i128 = (r2 * r2) / (ONE as i128);
        proof {
            lemma_square_bounds(r4 as int);
            lemma_mul_upper_bound(r4 as int, ONE as int, r4 as int, ONE as int);
            lemma_mul_nonnegative(r4 as int, r4 as int);
        }
        let r8: i128 = (r4 * r4) / (ONE as i128);
        let g: i128 = GAIN as i128 * m as i128;
        proof {
            assert(r8 == eighth_spec(ratio_spec(c as int, m as int)));
            lemma_curve_bounds(c as int, m as int);
            lemma_mul_upper_bound(g as int, GAIN * POINT_MAX, r8 as int, ONE as int);
            lemma_mul_nonnegative(g as int, r8 as int);
            assert(GAIN * m * r8 == g * r8);
        }
        let lift: i128 = (g * r8) / (HALVING as i128 * ONE as i128);
        (g + lift) as i64
    }

    /// Lays a valley-shaped curve over a sequence of points: each point is
    /// mapped through a polynomial of degree eight that is symmetric about the
    /// middle of the span from 0 to one past the last point, lowest at the
    /// middle and highest at the two ends.
    pub fn smooth(points: Vec<i64>) -> (smoothed: Vec<i64>)
        requires
            smooth_domain(points@),
        ensures
            smoothed@.len() == points@.len(),
            forall|k: int|
                0 <= k < points@.len() ==> #[trigger] smoothed@[k] == smooth_value(
                    points@[k] as int,
                    points@.last() + 1,
                ),
    {
        let mut smoothed: Vec<i64> = Vec::new();
        if points.len() == 0 {
            return smoothed;
        }
        let max: i64 = points[points.len() - 1] + 1;
        let mut i: usize = 0;
        while i < points.len()
            invariant
                i <= points@.len(),
                points@.len() > 0,
                smooth_domain(points@),
                max == points@.last() + 1,
                smoothed@.len() == i,
                forall|k: int|
                    0 <= k < i ==> #[trigger] smoothed@[k] == smooth_value(
                        points@[k] as int,
                        max as int,
                    ),
            decreases points@.len() - i,
        {
            let value: i64 = Calc::smooth_one(points[i], max);
            smoothed.push(value);
            i += 1;
        }
        smoothed
    }
}

} // verus!
