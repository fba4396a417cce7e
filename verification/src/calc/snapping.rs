use vstd::prelude::*;
use vstd::arithmetic::div_mod::*;
use vstd::arithmetic::mul::*;

use crate::calc::Calc;

verus! {

/// `a / b` rounded to the nearest integer, a tie going away from zero.
pub open spec fn round_div(a: int, b: int) -> int
    recommends
        b > 0,
{
    if a >= 0 {
        (2 * a + b) / (2 * b)
    } else {
        -((2 * (-a) + b) / (2 * b))
    }
}

/// The multiple of `precision` nearest to `angle`, a tie going away from zero.
pub open spec fn snap_spec(angle: int, precision: int) -> int
    recommends
        precision > 0,
{
    round_div(angle, precision) * precision
}

/// Whether the snapped angle can be held in 64 bits.
pub open spec fn snap_fits(angle: int, precision: int) -> bool {
    i64::MIN <= snap_spec(angle, precision) <= i64::MAX
}

/// Rounding a multiple of `b` by `b` gives the multiplier back.
pub proof fn lemma_round_div_of_multiple(k: int, b: int)
    requires
        b > 0,
    ensures
        round_div(k * b, b) == k,
{
    if k >= 0 {
        assert(k * b >= 0) by (nonlinear_arith)
            requires
                k >= 0,
                b > 0,
        ;
        assert(2 * (k * b) + b == k * (2 * b) + b) by (nonlinear_arith);
        lemma_fundamental_div_mod_converse(2 * (k * b) + b, 2 * b, k, b);
    } else {
        assert(k * b < 0) by (nonlinear_arith)
            requires
                k < 0,
                b > 0,
        ;
        assert(2 * (-(k * b)) + b == (-k) * (2 * b) + b) by (nonlinear_arith);
        lemma_fundamental_div_mod_converse(2 * (-(k * b)) + b, 2 * b, -k, b);
    }
}

/// Snapping twice is snapping once.
pub proof fn lemma_snap_idempotent(angle: int, precision: int)
    requires
        precision > 0,
    ensures
        snap_spec(snap_spec(angle, precision), precision) == snap_spec(angle, precision),
{
    lemma_round_div_of_multiple(round_div(angle, precision), precision);
}

/// A snapped angle is a multiple of the precision.
pub proof fn lemma_snap_is_multiple(angle: int, precision: int)
    requires
        precision > 0,
    ensures
        snap_spec(angle, precision) % precision == 0,
{
    lemma_mod_multiples_basic(round_div(angle, precision), precision);
}

/// A snapped angle lies within half a precision of the angle it came from,
/// and exactly half a precision away only on the side away from zero.
pub proof fn lemma_snap_is_nearest(angle: int, precision: int)
    requires
        precision > 0,
    ensures
        2 * (snap_spec(angle, precision) - angle) <= precision,
        2 * (angle - snap_spec(angle, precision)) <= precision,
        angle >= 0 ==> 2 * (angle - snap_spec(angle, precision)) < precision,
        angle < 0 ==> 2 * (snap_spec(angle, precision) - angle) < precision,
{
    let b = precision;
    if angle >= 0 {
        let n = 2 * angle + b;
        let q = n / (2 * b);
        lemma_fundamental_div_mod(n, 2 * b);
        lemma_mod_bound(n, 2 * b);
        assert((2 * b) * q == 2 * (q * b)) by (nonlinear_arith);
    } else {
        let n = 2 * (-angle) + b;
        let q = n / (2 * b);
        lemma_fundamental_div_mod(n, 2 * b);
        lemma_mod_bound(n, 2 * b);
        assert((2 * b) * q == 2 * (q * b)) by (nonlinear_arith);
        assert((-q) * b == -(q * b)) by (nonlinear_arith);
    }
}

/// A multiple of the precision snaps to itself.
pub proof fn lemma_snap_fixes_multiples(angle: int, precision: int)
    requires
        precision > 0,
        angle % precision == 0,
    ensures
        snap_spec(angle, precision) == angle,
{
    lemma_fundamental_div_mod(angle, precision);
    let k = angle / precision;
    assert(angle == k * precision) by (nonlinear_arith)
        requires
            angle == precision * k + 0,
    ;
    lemma_round_div_of_multiple(k, precision);
}

impl Calc {
    /// Tells whether `angle` can be snapped to `precision`: whether the
    /// precision is positive and the snapped angle fits in 64 bits.
    pub fn can_snap(angle: i64, precision: i64) -> (fits: bool)
        ensures
            fits == (precision > 0 && snap_fits(angle as int, precision as int)),
    {
        if precision <= 0 {
            return false;
        }
        let wide: i128 = angle as i128;
        let step: i128 = precision as i128;
        let size: i128 = if angle >= 0 {
            wide
        } else {
            -wide
        };
        let q: i128 = (2 * size + step) / (2 * step);
        proof {
            lemma_div_pos_is_pos(2 * size + step, 2 * step);
            lemma_snap_is_nearest(angle as int, precision as int);
            assert((-q) * step == -(q * step)) by (nonlinear_arith);
        }
        let snapped: i128 = q * step;
        if angle >= 0 {
            snapped <= i64::MAX as i128
        } else {
            -snapped >= i64::MIN as i128
        }
    }

    /// Rounds `angle` to the nearest multiple of `precision`; a value half way
    /// between two multiples goes to the one farther from zero.
    pub fn snap(angle: i64, precision: i64) -> (snapped: i64)
        requires
            precision > 0,
            snap_fits(angle as int, precision as int),
        ensures
            snapped == snap_spec(angle as int, precision as int),
            snapped as int % precision as int == 0,
            2 * (snapped - angle) <= precision,
            2 * (angle - snapped) <= precision,
            angle >= 0 ==> 2 * (angle - snapped) < precision,
            angle < 0 ==> 2 * (snapped - angle) < precision,
    {
        proof {
            lemma_snap_is_multiple(angle as int, precision as int);
        }
        let wide: i128 = angle as i128;
        let step: i128 = precision as i128;
        if angle >= 0 {
            let q: i128 = (2 * wide + step) / (2 * step);
            proof {
                lemma_div_pos_is_pos(2 * wide + step, 2 * step);
                lemma_snap_is_nearest(angle as int, precision as int);
            }
            let snapped: i128 = q * step;
            snapped as i64
        } else {
            let q: i128 = (2 * (-wide) + step) / (2 * step);
            proof {
                lemma_div_pos_is_pos(2 * (-wide) + step, 2 * step);
                lemma_snap_is_nearest(angle as int, precision as int);
                assert((-q) * step == -(q * step)) by (nonlinear_arith);
            }
            let snapped: i128 = q * step;
            (-snapped) as i64
        }
    }
}

} // verus!
