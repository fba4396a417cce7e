use vstd::prelude::*;

use vstd::arithmetic::div_mod::{
    lemma_basic_div, lemma_div_by_multiple, lemma_div_by_self, lemma_div_is_ordered,
    lemma_fundamental_div_mod, lemma_fundamental_div_mod_converse, lemma_mod_bound,
};
use vstd::arithmetic::mul::{lemma_mul_is_commutative, lemma_mul_nonnegative};

use crate::calc::easing::{
    eighth_spec, lemma_curve_bounds, lemma_curve_monotone, lemma_eighth_bounds,
    lemma_eighth_monotone, lemma_ratio_bounds, lemma_square_bounds, offset_spec, ratio_spec,
    smooth_domain, smooth_value, square_spec, GAIN, HALVING, ONE,
};
use crate::calc::scaling::{
    lemma_normalize_bounds, lemma_normalize_ends, lemma_normalize_monotone, lemma_seq_max_is,
    lemma_seq_min_is, normalize_spec,
};
use crate::calc::Calc;
use crate::driver::pulse::magnitude;
use crate::driver::{Driver, DriverError};

verus! {

/// The `k`-th point of a linear index sequence, counted from 0: the indices
/// run 1, 2, 3 and so on.
pub open spec fn linear_point(k: int) -> int {
    k + 1
}

/// The width of the span over which a schedule of `n` steps is eased: one past
/// its last point.
pub open spec fn eased_width(n: int) -> int {
    linear_point(n - 1) + 1
}

/// The height of the easing curve at step `k` of `n`.
pub open spec fn eased_height(n: int, k: int) -> int {
    smooth_value(linear_point(k), eased_width(n))
}

/// The index of a step at the middle of a schedule of `n` steps.
pub open spec fn middle(n: int) -> int {
    (n - 1) / 2
}

/// The fewest steps over which the curve, with its fractions cut off, is not
/// flat.
pub const CURVED_FROM: usize = 6;

/// The delay of step `k` of an eased schedule of `n` steps: the height of the
/// curve there, rescaled so that the height at the middle goes to `delay_min`
/// and the height at the two ends to `delay_max`. Where the curve is flat
/// over the schedule, every delay is `delay_min`.
pub open spec fn eased_delay(n: int, k: int, delay_min: int, delay_max: int) -> int {
    normalize_spec(
        eased_height(n, middle(n)),
        eased_height(n, 0),
        delay_min,
        delay_max,
        eased_height(n, k),
    )
}

/// Twice the distance of step `k` of `n` from the middle of the span.
pub proof fn lemma_linear_offset(n: int, k: int)
    requires
        0 <= k < n,
    ensures
        offset_spec(linear_point(k), eased_width(n)) == if 2 * k >= n - 1 {
            2 * k - (n - 1)
        } else {
            (n - 1) - 2 * k
        },
        0 <= offset_spec(linear_point(k), eased_width(n)) <= n - 1,
        offset_spec(linear_point(k), eased_width(n)) < eased_width(n),
{
}

/// No step of a schedule is higher on the curve than the first, and none is
/// lower than the one at the middle.
pub proof fn lemma_eased_height_range(n: int, k: int)
    requires
        0 <= k < n,
    ensures
        eased_height(n, middle(n)) <= eased_height(n, k) <= eased_height(n, 0),
{
    let w = eased_width(n);
    lemma_linear_offset(n, k);
    lemma_linear_offset(n, 0);
    lemma_linear_offset(n, middle(n));
    lemma_curve_monotone(
        offset_spec(linear_point(middle(n)), w),
        offset_spec(linear_point(k), w),
        w,
    );
    lemma_curve_monotone(offset_spec(linear_point(k), w), offset_spec(linear_point(0), w), w);
}

/// An eased schedule reads the same from both ends.
pub proof fn lemma_eased_symmetric(n: int, k: int, delay_min: int, delay_max: int)
    requires
        0 <= k < n,
    ensures
        eased_delay(n, k, delay_min, delay_max) == eased_delay(n, n - 1 - k, delay_min, delay_max),
{
    lemma_linear_offset(n, k);
    lemma_linear_offset(n, n - 1 - k);
}

/// Toward the middle of an eased schedule the steps sit no higher on the
/// curve: of two steps in the first half, the later one is no higher.
pub proof fn lemma_eased_height_valley(n: int, j: int, k: int)
    requires
        0 <= j <= k <= middle(n),
        0 < n,
    ensures
        eased_height(n, j) >= eased_height(n, k),
{
    let w = eased_width(n);
    lemma_linear_offset(n, j);
    lemma_linear_offset(n, k);
    lemma_curve_monotone(offset_spec(linear_point(k), w), offset_spec(linear_point(j), w), w);
}

/// The square of a fixed-point ratio whose value is known.
proof fn lemma_square_of(r: int, q: int, rest: int)
    requires
        r * r == q * ONE + rest,
        0 <= rest < ONE,
    ensures
        square_spec(r) == q,
{
    lemma_mul_is_commutative(q, ONE as int);
    lemma_fundamental_div_mod_converse(r * r, ONE as int, q, rest);
}

/// The eighth power of the ratio 5 / 7, the ratio of the first step of a
/// schedule of six steps.
proof fn lemma_eighth_of_curved() -> (e: int)
    ensures
        e == eighth_spec(1533916891),
        e == 145514267,
{
    assert(1533916891int * 1533916891int == 1095654921int * ONE + 1796874073);
    lemma_square_of(1533916891, 1095654921, 1796874073);
    assert(1095654921int * 1095654921int == 559007612int * ONE + 33987665);
    lemma_square_of(1095654921, 559007612, 33987665);
    assert(559007612int * 559007612int == 145514267int * ONE + 1340736528);
    lemma_square_of(559007612, 145514267, 1340736528);
    145514267
}

/// The eighth power of the ratio 4 / 6, the ratio of the first step of a
/// schedule of five steps.
proof fn lemma_eighth_of_flat() -> (e: int)
    ensures
        e == eighth_spec(1431655765),
        e == 83791466,
{
    assert(1431655765int * 1431655765int == 954437176int * ONE + 954437177);
    lemma_square_of(1431655765, 954437176, 954437177);
    assert(954437176int * 954437176int == 424194300int * ONE + 106048576);
    lemma_square_of(954437176, 424194300, 106048576);
    assert(424194300int * 424194300int == 83791466int * ONE + 1075542032);
    lemma_square_of(424194300, 83791466, 1075542032);
    83791466
}

/// Over a schedule of `CURVED_FROM` steps or more the curve is not flat: the
/// first step sits higher than the one at the middle.
pub proof fn lemma_eased_not_flat(n: int)
    requires
        n >= CURVED_FROM,
    ensures
        eased_height(n, middle(n)) < eased_height(n, 0),
{
    let w = eased_width(n);
    let ends = offset_spec(linear_point(0), w);
    let mid = offset_spec(linear_point(middle(n)), w);
    lemma_linear_offset(n, 0);
    lemma_linear_offset(n, middle(n));
    assert(ends == w - 2);
    assert(0 <= mid <= 1);
    let high = ratio_spec(ends, w);
    let low = ratio_spec(mid, w);
    lemma_ratio_bounds(ends, w);
    lemma_ratio_bounds(mid, w);
    let g = GAIN * w;
    let d = HALVING * ONE;
    // the first step reaches at least the ratio 5 / 7, which lifts it by one
    assert(high >= 1533916891) by {
        assert(1533916891 * w <= ends * ONE) by (nonlinear_arith)
            requires
                w >= 7,
                ends == w - 2,
        ;
        lemma_div_is_ordered(1533916891 * w, ends * ONE, w);
        lemma_div_by_multiple(1533916891, w);
    }
    let top = eighth_spec(high);
    let curved = lemma_eighth_of_curved();
    lemma_eighth_monotone(1533916891, high);
    assert(g * top >= d) by (nonlinear_arith)
        requires
            g >= 7000,
            top >= 145514267,
            d == 549755813888,
    ;
    lemma_div_is_ordered(d, g * top, d);
    lemma_div_by_self(d);
    // the middle step is within one part in `w` of the middle, which lifts it
    // by nothing
    let bottom = eighth_spec(low);
    let once = square_spec(low);
    lemma_square_bounds(low);
    lemma_square_bounds(once);
    lemma_square_bounds(square_spec(once));
    assert(bottom <= once);
    assert(low * w <= ONE) by {
        lemma_fundamental_div_mod(mid * ONE, w);
        lemma_mod_bound(mid * ONE, w);
        lemma_mul_is_commutative(low, w);
        assert(mid * ONE <= ONE) by (nonlinear_arith)
            requires
                0 <= mid <= 1,
        ;
    }
    assert(once * ONE <= low * low) by {
        lemma_fundamental_div_mod(low * low, ONE as int);
        lemma_mod_bound(low * low, ONE as int);
        lemma_mul_is_commutative(once, ONE as int);
    }
    assert(g * bottom < d) by (nonlinear_arith)
        requires
            g == 1000 * w,
            w >= 7,
            0 <= bottom <= once,
            0 <= low,
            once * 2147483648 <= low * low,
            low * w <= 2147483648,
            d == 549755813888,
    ;
    lemma_mul_nonnegative(g, bottom);
    lemma_basic_div(g * bottom, d);
}

/// Over a schedule of fewer than `CURVED_FROM` steps the curve, with its
/// fractions cut off, is flat: every step sits as high as the first.
pub proof fn lemma_eased_flat_heights(n: int, k: int)
    requires
        1 <= n < CURVED_FROM,
        0 <= k < n,
    ensures
        eased_height(n, k) == eased_height(n, 0),
        eased_height(n, k) == eased_height(n, middle(n)),
{
    let w = eased_width(n);
    let ends = offset_spec(linear_point(0), w);
    lemma_linear_offset(n, 0);
    let high = ratio_spec(ends, w);
    lemma_ratio_bounds(ends, w);
    let g = GAIN * w;
    let d = HALVING * ONE;
    // the first step stays within the ratio 4 / 6, which lifts it by nothing
    assert(high <= 1431655765) by {
        lemma_fundamental_div_mod(ends * ONE, w);
        lemma_mod_bound(ends * ONE, w);
        assert(high <= 1431655765) by (nonlinear_arith)
            requires
                2 <= w <= 6,
                ends == w - 2,
                high >= 0,
                w * high <= ends * 2147483648,
        ;
    }
    let top = eighth_spec(high);
    let flat = lemma_eighth_of_flat();
    lemma_eighth_monotone(high, 1431655765);
    lemma_eighth_bounds(high);
    assert(g * top < d) by (nonlinear_arith)
        requires
            g == 1000 * w,
            2 <= w <= 6,
            0 <= top <= 83791466,
            d == 549755813888,
    ;
    lemma_mul_nonnegative(g, top);
    lemma_basic_div(g * top, d);
    assert(eased_height(n, 0) == GAIN * w);
    lemma_eased_height_range(n, k);
    lemma_eased_height_range(n, middle(n));
    lemma_linear_offset(n, k);
    lemma_linear_offset(n, middle(n));
    lemma_curve_bounds(offset_spec(linear_point(k), w), w);
    lemma_curve_bounds(offset_spec(linear_point(middle(n)), w), w);
}

/// Every delay of an eased schedule lies in the window from `delay_min` to
/// `delay_max`, whatever the number of steps.
pub proof fn lemma_eased_window(n: int, k: int, delay_min: int, delay_max: int)
    requires
        0 <= k < n,
        delay_min <= delay_max,
    ensures
        delay_min <= eased_delay(n, k, delay_min, delay_max) <= delay_max,
{
    lemma_eased_height_range(n, k);
    lemma_normalize_bounds(
        eased_height(n, middle(n)),
        eased_height(n, 0),
        delay_min,
        delay_max,
        eased_height(n, k),
    );
}

/// In an eased schedule of `CURVED_FROM` steps or more, the first and the last
/// delay are `delay_max`, and the delay at the middle is `delay_min`.
pub proof fn lemma_eased_shape(n: int, delay_min: int, delay_max: int)
    requires
        n >= CURVED_FROM,
    ensures
        eased_delay(n, 0, delay_min, delay_max) == delay_max,
        eased_delay(n, n - 1, delay_min, delay_max) == delay_max,
        eased_delay(n, middle(n), delay_min, delay_max) == delay_min,
{
    lemma_eased_not_flat(n);
    lemma_normalize_ends(eased_height(n, middle(n)), eased_height(n, 0), delay_min, delay_max);
    lemma_eased_symmetric(n, 0, delay_min, delay_max);
}

/// In an eased schedule of fewer than `CURVED_FROM` steps every delay is
/// `delay_min`: the curve is flat there, and a flat curve is rescaled to the
/// start of the window.
pub proof fn lemma_eased_flat(n: int, k: int, delay_min: int, delay_max: int)
    requires
        1 <= n < CURVED_FROM,
        0 <= k < n,
    ensures
        eased_delay(n, k, delay_min, delay_max) == delay_min,
{
    lemma_eased_flat_heights(n, 0);
}

/// Toward the middle of an eased schedule the delays do not grow: of two steps
/// in the first half, the later one waits no longer.
pub proof fn lemma_eased_valley(n: int, j: int, k: int, delay_min: int, delay_max: int)
    requires
        0 <= j <= k <= middle(n),
        0 < n,
        delay_min <= delay_max,
    ensures
        eased_delay(n, j, delay_min, delay_max) >= eased_delay(n, k, delay_min, delay_max),
{
    lemma_eased_height_valley(n, j, k);
    lemma_eased_height_range(n, j);
    lemma_eased_height_range(n, k);
    lemma_normalize_monotone(
        eased_height(n, middle(n)),
        eased_height(n, 0),
        delay_min,
        delay_max,
        eased_height(n, k),
        eased_height(n, j),
    );
}

impl Driver {
    /// The linear index sequence of a move: one index for each of the
    /// `|steps|` steps, counted from 1.
    pub fn get_linear_steps(steps: i32) -> (times: Vec<i64>)
        ensures
            times@.len() == magnitude(steps as int),
            forall|k: int| 0 <= k < times@.len() ==> #[trigger] times@[k] == linear_point(k),
    {
        let count: u32 = Driver::step_total(steps);
        let mut times: Vec<i64> = Vec::new();
        let mut i: u32 = 0;
        while i < count
            invariant
                i <= count,
                times@.len() == i,
                forall|k: int| 0 <= k < i ==> #[trigger] times@[k] == linear_point(k),
            decreases count - i,
        {
            times.push(i as i64 + 1);
            i += 1;
        }
        times
    }

    /// The schedule of a move at constant speed: `delay` for each of the
    /// `|steps|` steps.
    pub fn constant_delays(steps: i32, delay: i64) -> (delays: Vec<i64>)
        ensures
            delays@.len() == magnitude(steps as int),
            forall|k: int| 0 <= k < delays@.len() ==> #[trigger] delays@[k] == delay,
    {
        let count: u32 = Driver::step_total(steps);
        let mut delays: Vec<i64> = Vec::new();
        let mut i: u32 = 0;
        while i < count
            invariant
                i <= count,
                delays@.len() == i,
                forall|k: int| 0 <= k < i ==> #[trigger] delays@[k] == delay,
            decreases count - i,
        {
            delays.push(delay);
            i += 1;
        }
        delays
    }

    /// The schedule of an eased move: one delay for each of the `|steps|`
    /// steps, each in the window from `delay_min` to `delay_max`, long at the
    /// two ends and short at the middle. Over fewer than `CURVED_FROM` steps
    /// the curve is flat and every delay is `delay_min`. A move of no step has
    /// no such schedule.
    pub fn eased_delays(steps: i32, delay_min: i64, delay_max: i64) -> (res: Result<
        Vec<i64>,
        DriverError,
    >)
        ensures
            steps == 0 <==> res is Err,
            res matches Err(e) ==> e == DriverError::CantNormalize,
            res matches Ok(delays) ==> {
                &&& delays@.len() == magnitude(steps as int)
                &&& forall|k: int|
                    0 <= k < delays@.len() ==> #[trigger] delays@[k] == eased_delay(
                        magnitude(steps as int) as int,
                        k,
                        delay_min as int,
                        delay_max as int,
                    )
                &&& forall|k: int|
                    0 <= k < delays@.len() ==> #[trigger] delays@[k] == delays@[delays@.len() - 1
                        - k]
                &&& delay_min <= delay_max ==> forall|k: int|
                    0 <= k < delays@.len() ==> delay_min <= #[trigger] delays@[k] <= delay_max
                &&& delays@.len() < CURVED_FROM ==> forall|k: int|
                    0 <= k < delays@.len() ==> #[trigger] delays@[k] == delay_min
                &&& delays@.len() >= CURVED_FROM ==> {
                    &&& delays@[0] == delay_max
                    &&& delays@[delays@.len() - 1] == delay_max
                    &&& delays@[middle(delays@.len() as int)] == delay_min
                }
                &&& delay_min <= delay_max ==> forall|j: int, k: int|
                    0 <= j <= k <= middle(delays@.len() as int) ==> #[trigger] delays@[j]
                        >= #[trigger] delays@[k]
            },
    {
        let linear: Vec<i64> = Driver::get_linear_steps(steps);
        let ghost n: int = magnitude(steps as int) as int;
        assert(smooth_domain(linear@));
        let smoothed: Vec<i64> = Calc::smooth(linear);
        proof {
            if n > 0 {
                assert forall|k: int| 0 <= k < n implies #[trigger] smoothed@[k] == eased_height(
                    n,
                    k,
                ) by {
                    assert(linear@[k] == linear_point(k));
                    assert(linear@.last() == linear_point(n - 1));
                }
                assert forall|k: int| 0 <= k < n implies smoothed@[middle(n)]
                    <= #[trigger] smoothed@[k] by {
                    lemma_eased_height_range(n, k);
                }
                assert forall|k: int| 0 <= k < n implies smoothed@[0] >= #[trigger] smoothed@[k] by {
                    lemma_eased_height_range(n, k);
                }
                lemma_seq_min_is(smoothed@, middle(n));
                lemma_seq_max_is(smoothed@, 0);
            }
        }
        match Calc::normalize_vec(delay_min, delay_max, smoothed) {
            Some(delays) => {
                proof {
                    assert forall|k: int| 0 <= k < n implies #[trigger] delays@[k] == delays@[n - 1
                        - k] by {
                        lemma_eased_symmetric(n, k, delay_min as int, delay_max as int);
                    }
                    if n < CURVED_FROM {
                        assert forall|k: int| 0 <= k < n implies #[trigger] delays@[k]
                            == delay_min by {
                            lemma_eased_flat(n, k, delay_min as int, delay_max as int);
                        }
                    } else {
                        lemma_eased_shape(n, delay_min as int, delay_max as int);
                    }
                    if delay_min <= delay_max {
                        assert forall|j: int, k: int| 0 <= j <= k <= middle(n) implies
                            #[trigger] delays@[j] >= #[trigger] delays@[k] by {
                            lemma_eased_valley(n, j, k, delay_min as int, delay_max as int);
                        }
                    }
                }
                Ok(delays)
            },
            None => Err(DriverError::CantNormalize),
        }
    }
}

} // verus!
