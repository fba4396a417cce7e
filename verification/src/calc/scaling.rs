use vstd::prelude::*;
use vstd::arithmetic::div_mod::*;
use vstd::arithmetic::mul::*;

use crate::calc::Calc;

verus! {

/// Where `input`, a value of the range `min ..= max`, lands when that range is
/// laid linearly over `start ..= end` (or `end ..= start`), the fraction cut
/// off toward `start`. A range of a single value has no extent to lay out: its
/// one value lands on `start`.
pub open spec fn normalize_spec(min: int, max: int, start: int, end: int, input: int) -> int {
    if max == min {
        start
    } else if end >= start {
        start + ((end - start) * (input - min)) / (max - min)
    } else {
        start - ((start - end) * (input - min)) / (max - min)
    }
}

/// The least of the first `n` values of `s`.
pub open spec fn min_upto(s: Seq<i64>, n: int) -> int
    recommends
        0 < n <= s.len(),
    decreases n,
{
    if n <= 1 {
        s[0] as int
    } else {
        let rest = min_upto(s, n - 1);
        if s[n - 1] < rest {
            s[n - 1] as int
        } else {
            rest
        }
    }
}

/// The greatest of the first `n` values of `s`.
pub open spec fn max_upto(s: Seq<i64>, n: int) -> int
    recommends
        0 < n <= s.len(),
    decreases n,
{
    if n <= 1 {
        s[0] as int
    } else {
        let rest = max_upto(s, n - 1);
        if s[n - 1] > rest {
            s[n - 1] as int
        } else {
            rest
        }
    }
}

/// The least value of a sequence that is not empty.
pub open spec fn seq_min(s: Seq<i64>) -> int
    recommends
        s.len() > 0,
{
    min_upto(s, s.len() as int)
}

/// The greatest value of a sequence that is not empty.
pub open spec fn seq_max(s: Seq<i64>) -> int
    recommends
        s.len() > 0,
{
    max_upto(s, s.len() as int)
}

/// `min_upto` is a lower bound of the values it ranges over, and one of them.
pub proof fn lemma_min_upto(s: Seq<i64>, n: int)
    requires
        0 < n <= s.len(),
    ensures
        forall|k: int| 0 <= k < n ==> min_upto(s, n) <= #[trigger] s[k],
        exists|k: int| 0 <= k < n && min_upto(s, n) == #[trigger] s[k],
    decreases n,
{
    if n > 1 {
        lemma_min_upto(s, n - 1);
        let w = choose|k: int| 0 <= k < n - 1 && min_upto(s, n - 1) == #[trigger] s[k];
        if s[n - 1] < min_upto(s, n - 1) {
            assert(min_upto(s, n) == s[n - 1]);
        } else {
            assert(min_upto(s, n) == s[w]);
        }
    } else {
        assert(min_upto(s, n) == s[0]);
    }
}

/// `max_upto` is an upper bound of the values it ranges over, and one of them.
pub proof fn lemma_max_upto(s: Seq<i64>, n: int)
    requires
        0 < n <= s.len(),
    ensures
        forall|k: int| 0 <= k < n ==> max_upto(s, n) >= #[trigger] s[k],
        exists|k: int| 0 <= k < n && max_upto(s, n) == #[trigger] s[k],
    decreases n,
{
    if n > 1 {
        lemma_max_upto(s, n - 1);
        let w = choose|k: int| 0 <= k < n - 1 && max_upto(s, n - 1) == #[trigger] s[k];
        if s[n - 1] > max_upto(s, n - 1) {
            assert(max_upto(s, n) == s[n - 1]);
        } else {
            assert(max_upto(s, n) == s[w]);
        }
    } else {
        assert(max_upto(s, n) == s[0]);
    }
}

/// A value that bounds a sequence from below and occurs in it is its least.
pub proof fn lemma_seq_min_is(s: Seq<i64>, at: int)
    requires
        0 <= at < s.len(),
        forall|k: int| 0 <= k < s.len() ==> s[at] <= #[trigger] s[k],
    ensures
        seq_min(s) == s[at],
{
    lemma_min_upto(s, s.len() as int);
}

/// A value that bounds a sequence from above and occurs in it is its greatest.
pub proof fn lemma_seq_max_is(s: Seq<i64>, at: int)
    requires
        0 <= at < s.len(),
        forall|k: int| 0 <= k < s.len() ==> s[at] >= #[trigger] s[k],
    ensures
        seq_max(s) == s[at],
{
    lemma_max_upto(s, s.len() as int);
}

/// The part of a span that a fraction `off / width` of it covers is no longer
/// than the span.
pub proof fn lemma_share_bounds(span: int, off: int, width: int)
    requires
        0 <= span,
        0 <= off <= width,
        0 < width,
    ensures
        0 <= (span * off) / width <= span,
{
    lemma_mul_nonnegative(span, off);
    lemma_mul_inequality(off, width, span);
    lemma_mul_is_commutative(span, off);
    lemma_mul_is_commutative(span, width);
    lemma_div_is_ordered(span * off, span * width, width);
    lemma_div_by_multiple(span, width);
    lemma_div_pos_is_pos(span * off, width);
}

/// A normalized value lies between `start` and `end`, whichever way round.
pub proof fn lemma_normalize_bounds(min: int, max: int, start: int, end: int, input: int)
    requires
        min <= input <= max,
    ensures
        start <= end ==> start <= normalize_spec(min, max, start, end, input) <= end,
        end <= start ==> end <= normalize_spec(min, max, start, end, input) <= start,
{
    if min == max {
    } else if end >= start {
        lemma_share_bounds(end - start, input - min, max - min);
    } else {
        lemma_share_bounds(start - end, input - min, max - min);
    }
}

/// The ends of the range go to the ends of the target: `min` to `start`, `max`
/// to `end`.
pub proof fn lemma_normalize_ends(min: int, max: int, start: int, end: int)
    requires
        min < max,
    ensures
        normalize_spec(min, max, start, end, min) == start,
        normalize_spec(min, max, start, end, max) == end,
{
    if end >= start {
        lemma_mul_basics(end - start);
        lemma_div_by_multiple(end - start, max - min);
    } else {
        lemma_mul_basics(start - end);
        lemma_div_by_multiple(start - end, max - min);
    }
}

/// Normalizing keeps the order of the inputs when `start <= end`, and turns it
/// round when `end <= start`.
pub proof fn lemma_normalize_monotone(min: int, max: int, start: int, end: int, a: int, b: int)
    requires
        min <= a <= b <= max,
    ensures
        start <= end ==> normalize_spec(min, max, start, end, a) <= normalize_spec(
            min,
            max,
            start,
            end,
            b,
        ),
        end <= start ==> normalize_spec(min, max, start, end, a) >= normalize_spec(
            min,
            max,
            start,
            end,
            b,
        ),
{
    let span = if end >= start {
        end - start
    } else {
        start - end
    };
    lemma_mul_basics(a - min);
    lemma_mul_basics(b - min);
    lemma_mul_inequality(a - min, b - min, span);
    lemma_mul_is_commutative(span, a - min);
    lemma_mul_is_commutative(span, b - min);
    if min < max {
        lemma_div_is_ordered(span * (a - min), span * (b - min), max - min);
    }
}

/// A normalized value is the share of the span with its fraction cut off: the
/// share lies between it and the next integer.
pub proof fn lemma_normalize_brackets(min: int, max: int, start: int, end: int, input: int)
    requires
        min <= input <= max,
        min < max,
    ensures
        start <= end ==> {
            let scaled = normalize_spec(min, max, start, end, input);
            &&& (max - min) * (scaled - start) <= (end - start) * (input - min)
            &&& (end - start) * (input - min) < (max - min) * (scaled - start + 1)
        },
        end < start ==> {
            let scaled = normalize_spec(min, max, start, end, input);
            &&& (max - min) * (start - scaled) <= (start - end) * (input - min)
            &&& (start - end) * (input - min) < (max - min) * (start - scaled + 1)
        },
{
    let span = if end >= start {
        end - start
    } else {
        start - end
    };
    let n = span * (input - min);
    let w = max - min;
    lemma_fundamental_div_mod(n, w);
    lemma_mod_bound(n, w);
    lemma_mul_is_distributive_add(w, n / w, 1);
}

impl Calc {
    /// Maps `input` from the range `min ..= max` linearly into the range from
    /// `start` to `end`. The one value of a range with `min == max` goes to
    /// `start`.
    pub fn normalize(min: i64, max: i64, start: i64, end: i64, input: i64) -> (scaled: i64)
        requires
            min <= input <= max,
        ensures
            scaled == normalize_spec(min as int, max as int, start as int, end as int, input as int),
            start <= end ==> start <= scaled <= end,
            end <= start ==> end <= scaled <= start,
            min == max ==> scaled == start,
            min < max && start <= end ==> {
                &&& (max - min) * (scaled - start) <= (end - start) * (input - min)
                &&& (end - start) * (input - min) < (max - min) * (scaled - start + 1)
            },
            min < max && end < start ==> {
                &&& (max - min) * (start - scaled) <= (start - end) * (input - min)
                &&& (start - end) * (input - min) < (max - min) * (start - scaled + 1)
            },
    {
        if max == min {
            return start;
        }
        proof {
            lemma_normalize_bounds(min as int, max as int, start as int, end as int, input as int);
            lemma_normalize_brackets(min as int, max as int, start as int, end as int, input as int);
        }
        let off: u128 = (input as i128 - min as i128) as u128;
        let width: u128 = (max as i128 - min as i128) as u128;
        if end >= start {
            let span: u128 = (end as i128 - start as i128) as u128;
            proof {
                lemma_share_bounds(span as int, off as int, width as int);
                lemma_mul_upper_bound(span as int, 0xffff_ffff_ffff_ffff, off as int, 0xffff_ffff_ffff_ffff);
            }
            let share: u128 = span * off / width;
            (start as i128 + share as i128) as i64
        } else {
            let span: u128 = (start as i128 - end as i128) as u128;
            proof {
                lemma_share_bounds(span as int, off as int, width as int);
                lemma_mul_upper_bound(span as int, 0xffff_ffff_ffff_ffff, off as int, 0xffff_ffff_ffff_ffff);
            }
            let share: u128 = span * off / width;
            (start as i128 - share as i128) as i64
        }
    }

    /// Rescales a whole sequence so that its least value lands on `start` and
    /// its greatest on `end`; every value lands in between. A sequence whose
    /// values are all equal lands on `start`. An empty sequence cannot be
    /// rescaled.
    pub fn normalize_vec(start: i64, end: i64, input: Vec<i64>) -> (scaled: Option<Vec<i64>>)
        ensures
            input@.len() == 0 <==> scaled is None,
            scaled matches Some(v) ==> {
                &&& v@.len() == input@.len()
                &&& forall|k: int|
                    0 <= k < v@.len() ==> #[trigger] v@[k] == normalize_spec(
                        seq_min(input@),
                        seq_max(input@),
                        start as int,
                        end as int,
                        input@[k] as int,
                    )
                &&& start <= end ==> forall|k: int|
                    0 <= k < v@.len() ==> start <= #[trigger] v@[k] <= end
                &&& end <= start ==> forall|k: int|
                    0 <= k < v@.len() ==> end <= #[trigger] v@[k] <= start
            },
    {
        if input.len() == 0 {
            return None;
        }
        let mut min: i64 = input[0];
        let mut max: i64 = input[0];
        let mut i: usize = 1;
        while i < input.len()
            invariant
                1 <= i <= input@.len(),
                min == min_upto(input@, i as int),
                max == max_upto(input@, i as int),
            decreases input@.len() - i,
        {
            if input[i] < min {
                min = input[i];
            }
            if input[i] > max {
                max = input[i];
            }
            i += 1;
        }
        proof {
            lemma_min_upto(input@, input@.len() as int);
            lemma_max_upto(input@, input@.len() as int);
        }
        let mut scaled: Vec<i64> = Vec::new();
        let mut j: usize = 0;
        while j < input.len()
            invariant
                j <= input@.len(),
                scaled@.len() == j,
                min == seq_min(input@),
                max == seq_max(input@),
                forall|k: int| 0 <= k < input@.len() ==> min <= #[trigger] input@[k] <= max,
                forall|k: int|
                    0 <= k < j ==> #[trigger] scaled@[k] == normalize_spec(
                        min as int,
                        max as int,
                        start as int,
                        end as int,
                        input@[k] as int,
                    ),
                start <= end ==> forall|k: int| 0 <= k < j ==> start <= #[trigger] scaled@[k] <= end,
                end <= start ==> forall|k: int| 0 <= k < j ==> end <= #[trigger] scaled@[k] <= start,
            decreases input@.len() - j,
        {
            let value: i64 = Calc::normalize(min, max, start, end, input[j]);
            scaled.push(value);
            j += 1;
        }
        Some(scaled)
    }
}

} // verus!
