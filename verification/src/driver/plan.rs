use vstd::prelude::*;
use vstd::arithmetic::div_mod::{
    lemma_div_is_ordered_by_denominator, lemma_div_pos_is_pos, lemma_fundamental_div_mod,
};
use vstd::arithmetic::mul::lemma_mul_is_commutative;

use crate::calc::snapping::{snap_fits, snap_spec};
use crate::calc::Calc;
use crate::driver::Driver;

verus! {

/// `a / b` with its fraction cut off toward zero.
pub open spec fn trunc_div(a: int, b: int) -> int
    recommends
        b > 0,
{
    if a >= 0 {
        a / b
    } else {
        -((-a) / b)
    }
}

/// `v`, or the 32-bit value nearest to it where it does not fit.
pub open spec fn clamp_i32(v: int) -> int {
    if v < i32::MIN {
        i32::MIN as int
    } else if v > i32::MAX {
        i32::MAX as int
    } else {
        v
    }
}

/// The steps that turn a joint by `delta` at `step_degree` per step: the
/// quotient with its fraction cut off, held to 32 bits.
pub open spec fn steps_spec(delta: int, step_degree: int) -> int
    recommends
        step_degree > 0,
{
    clamp_i32(trunc_div(delta, step_degree))
}

/// The direction in which a joint turns by `delta`: `true` where it does not
/// turn back.
pub open spec fn direction_spec(delta: int) -> bool {
    delta >= 0
}

/// The quotient cut off toward zero is the one number whose multiple of `b`
/// lies within less than `b` of `a`, on the side of zero.
pub proof fn lemma_trunc_div_is(a: int, b: int, q: int)
    requires
        b > 0,
        a >= 0 ==> q * b <= a < (q + 1) * b,
        a < 0 ==> (q - 1) * b < a <= q * b,
    ensures
        trunc_div(a, b) == q,
{
    if a >= 0 {
        assert(a == q * b + (a - q * b));
        assert((q + 1) * b == q * b + b) by (nonlinear_arith);
        lemma_mul_is_commutative(q, b);
        vstd::arithmetic::div_mod::lemma_fundamental_div_mod_converse(a, b, q, a - q * b);
    } else {
        assert((q - 1) * b == q * b - b) by (nonlinear_arith);
        assert((-q) * b == -(q * b)) by (nonlinear_arith);
        lemma_mul_is_commutative(-q, b);
        vstd::arithmetic::div_mod::lemma_fundamental_div_mod_converse(
            -a,
            b,
            -q,
            (-a) - (-q) * b,
        );
    }
}

/// Where a turn is a whole number of steps that fits in 32 bits, the steps
/// make up the turn exactly.
pub proof fn lemma_steps_exact(delta: int, step_degree: int)
    requires
        step_degree > 0,
        delta % step_degree == 0,
        i32::MIN <= trunc_div(delta, step_degree) <= i32::MAX,
    ensures
        steps_spec(delta, step_degree) * step_degree == delta,
{
    lemma_fundamental_div_mod(delta, step_degree);
    lemma_mul_is_commutative(step_degree, delta / step_degree);
    if delta < 0 {
        lemma_fundamental_div_mod(-delta, step_degree);
        lemma_mul_is_commutative(step_degree, (-delta) / step_degree);
        assert((-delta) % step_degree == 0) by {
            vstd::arithmetic::div_mod::lemma_mod_multiples_basic(
                -(delta / step_degree),
                step_degree,
            );
            assert(-delta == (-(delta / step_degree)) * step_degree) by (nonlinear_arith)
                requires
                    delta == (delta / step_degree) * step_degree,
            ;
        }
        assert((-((-delta) / step_degree)) * step_degree == -(((-delta) / step_degree)
            * step_degree)) by (nonlinear_arith);
    }
}

impl Driver {
    /// The column's turn toward `column_angle`: from the angle last committed
    /// to the target, snapped.
    pub open spec fn column_delta(&self, column_angle: int) -> int {
        snap_spec(column_angle, self.step_degree as int) - self.column_angle
    }

    /// The beam's turn toward `beam_angle`. The beam hangs on the column, so
    /// the column's committed angle is taken off as well.
    pub open spec fn beam_delta(&self, beam_angle: int) -> int {
        snap_spec(beam_angle, self.step_degree as int) - self.beam_angle - self.column_angle
    }

    /// The base's turn toward `base_angle`.
    pub open spec fn base_delta(&self, base_angle: int) -> int {
        snap_spec(base_angle, self.step_degree as int) - self.base_angle
    }

    /// The steps for a turn by `delta`.
    pub fn steps_for(delta: i128, step_degree: i64) -> (steps: i32)
        requires
            step_degree > 0,
        ensures
            steps == steps_spec(delta as int, step_degree as int),
    {
        let step: i128 = step_degree as i128;
        if delta >= 0 {
            let q: i128 = delta / step;
            proof {
                lemma_div_pos_is_pos(delta as int, step as int);
            }
            if q > i32::MAX as i128 {
                i32::MAX
            } else {
                q as i32
            }
        } else if delta == i128::MIN {
            proof {
                lemma_div_is_ordered_by_denominator(
                    -(delta as int),
                    step as int,
                    0x8000_0000_0000_0000,
                );
            }
            i32::MIN
        } else {
            let q: i128 = (-delta) / step;
            proof {
                lemma_div_pos_is_pos(-delta as int, step as int);
            }
            if q > i32::MAX as i128 {
                i32::MIN
            } else {
                (-q) as i32
            }
        }
    }

    /// Plans a move in the plane: the step counts of column and beam, and the
    /// two target angles snapped to the step size. Returns column steps, beam
    /// steps, snapped column angle and snapped beam angle, in this order.
    pub fn get_steps_2d(&self, column_angle: i64, beam_angle: i64) -> (plan: (i32, i32, i64, i64))
        requires
            self.step_degree > 0,
            snap_fits(column_angle as int, self.step_degree as int),
            snap_fits(beam_angle as int, self.step_degree as int),
        ensures
            plan.2 == snap_spec(column_angle as int, self.step_degree as int),
            plan.3 == snap_spec(beam_angle as int, self.step_degree as int),
            plan.0 == steps_spec(self.column_delta(column_angle as int), self.step_degree as int),
            plan.1 == steps_spec(self.beam_delta(beam_angle as int), self.step_degree as int),
    {
        let column_snapped: i64 = Calc::snap(column_angle, self.step_degree);
        let beam_snapped: i64 = Calc::snap(beam_angle, self.step_degree);
        let change_in_column: i128 = column_snapped as i128 - self.column_angle as i128;
        let change_in_beam: i128 = beam_snapped as i128 - self.beam_angle as i128
            - self.column_angle as i128;
        let column_steps: i32 = Driver::steps_for(change_in_column, self.step_degree);
        let beam_steps: i32 = Driver::steps_for(change_in_beam, self.step_degree);
        (column_steps, beam_steps, column_snapped, beam_snapped)
    }

    /// Plans a move in space: what `get_steps_2d` plans, and the same for the
    /// base. Returns the three step counts and then the three snapped angles,
    /// each time column, beam, base.
    pub fn get_steps_3d(&self, column_angle: i64, beam_angle: i64, base_angle: i64) -> (plan: (
        i32,
        i32,
        i32,
        i64,
        i64,
        i64,
    ))
        requires
            self.step_degree > 0,
            snap_fits(column_angle as int, self.step_degree as int),
            snap_fits(beam_angle as int, self.step_degree as int),
            snap_fits(base_angle as int, self.step_degree as int),
        ensures
            plan.3 == snap_spec(column_angle as int, self.step_degree as int),
            plan.4 == snap_spec(beam_angle as int, self.step_degree as int),
            plan.5 == snap_spec(base_angle as int, self.step_degree as int),
            plan.0 == steps_spec(self.column_delta(column_angle as int), self.step_degree as int),
            plan.1 == steps_spec(self.beam_delta(beam_angle as int), self.step_degree as int),
            plan.2 == steps_spec(self.base_delta(base_angle as int), self.step_degree as int),
    {
        let (column_steps, beam_steps, column_snapped, beam_snapped) = self.get_steps_2d(
            column_angle,
            beam_angle,
        );
        let base_snapped: i64 = Calc::snap(base_angle, self.step_degree);
        let change_in_base: i128 = base_snapped as i128 - self.base_angle as i128;
        let base_steps: i32 = Driver::steps_for(change_in_base, self.step_degree);
        (column_steps, beam_steps, base_steps, column_snapped, beam_snapped, base_snapped)
    }
}

} // verus!
