use vstd::prelude::*;

use crate::driver::Driver;

verus! {

/// One thing that a joint's worker does to its motor, or one wait between two
/// of them.
#[derive(Clone, Copy, Debug, PartialEq, Eq, Structural)]
pub enum Pulse {
    /// Raise the step line, turning one step in the given direction.
    Step(bool),
    /// Lower the step line again.
    Reset,
    /// Sleep for this many microseconds.
    Wait(i64),
}

/// The wait after a reset in a train that follows a delay schedule, in
/// microseconds.
pub const SETTLE: i64 = 10;

/// The train of a move at constant speed: for each of `n` steps a step pulse,
/// a wait of `delay`, a reset and another wait of `delay`.
pub open spec fn constant_train(n: nat, dir: bool, delay: i64) -> Seq<Pulse> {
    Seq::new(
        4 * n,
        |k: int|
            if k % 4 == 0 {
                Pulse::Step(dir)
            } else if k % 4 == 2 {
                Pulse::Reset
            } else {
                Pulse::Wait(delay)
            },
    )
}

/// The train of a move that follows a schedule: for each delay a step pulse,
/// a wait of that delay, a reset and a wait of `SETTLE`.
pub open spec fn profile_train(delays: Seq<i64>, dir: bool) -> Seq<Pulse> {
    Seq::new(
        4 * delays.len(),
        |k: int|
            if k % 4 == 0 {
                Pulse::Step(dir)
            } else if k % 4 == 1 {
                Pulse::Wait(delays[k / 4])
            } else if k % 4 == 2 {
                Pulse::Reset
            } else {
                Pulse::Wait(SETTLE)
            },
    )
}

/// How many step pulses a train holds.
pub open spec fn count_steps(train: Seq<Pulse>) -> nat
    decreases train.len(),
{
    if train.len() == 0 {
        0
    } else {
        count_steps(train.drop_last()) + if train.last() is Step {
            1nat
        } else {
            0nat
        }
    }
}

/// The microseconds that a train spends waiting.
pub open spec fn total_wait(train: Seq<Pulse>) -> int
    decreases train.len(),
{
    if train.len() == 0 {
        0
    } else {
        total_wait(train.drop_last()) + match train.last() {
            Pulse::Wait(d) => d as int,
            _ => 0,
        }
    }
}

/// The magnitude of a step count.
pub open spec fn magnitude(steps: int) -> nat {
    if steps >= 0 {
        steps as nat
    } else {
        (-steps) as nat
    }
}

/// A train at constant speed for one step more is the shorter train with one
/// more round of four pulses behind it.
pub proof fn lemma_constant_train_grows(n: nat, dir: bool, delay: i64)
    ensures
        constant_train(n + 1, dir, delay) =~= constant_train(n, dir, delay).push(
            Pulse::Step(dir),
        ).push(Pulse::Wait(delay)).push(Pulse::Reset).push(Pulse::Wait(delay)),
{
}

/// A train that follows a schedule with one more delay is the shorter train
/// with one more round of four pulses behind it.
pub proof fn lemma_profile_train_grows(delays: Seq<i64>, last: i64, dir: bool)
    ensures
        profile_train(delays.push(last), dir) =~= profile_train(delays, dir).push(
            Pulse::Step(dir),
        ).push(Pulse::Wait(last)).push(Pulse::Reset).push(Pulse::Wait(SETTLE)),
{
    let long = profile_train(delays.push(last), dir);
    let short = profile_train(delays, dir).push(Pulse::Step(dir)).push(Pulse::Wait(last)).push(
        Pulse::Reset,
    ).push(Pulse::Wait(SETTLE));
    assert forall|k: int| 0 <= k < long.len() implies long[k] == short[k] by {
        if k < 4 * delays.len() {
            assert(k / 4 < delays.len());
            assert(delays.push(last)[k / 4] == delays[k / 4]);
        } else {
            assert(k / 4 == delays.len());
        }
    }
}

/// One more pulse adds its own step and its own wait to a train's totals.
pub proof fn lemma_push_counts(train: Seq<Pulse>, pulse: Pulse)
    ensures
        count_steps(train.push(pulse)) == count_steps(train) + if pulse is Step {
            1nat
        } else {
            0nat
        },
        total_wait(train.push(pulse)) == total_wait(train) + match pulse {
            Pulse::Wait(d) => d as int,
            _ => 0,
        },
{
    assert(train.push(pulse).drop_last() =~= train);
}

/// A round of four pulses adds one step and its two waits to a train.
proof fn lemma_round_counts(train: Seq<Pulse>, dir: bool, first: i64, second: i64)
    ensures
        count_steps(
            train.push(Pulse::Step(dir)).push(Pulse::Wait(first)).push(Pulse::Reset).push(
                Pulse::Wait(second),
            ),
        ) == count_steps(train) + 1,
        total_wait(
            train.push(Pulse::Step(dir)).push(Pulse::Wait(first)).push(Pulse::Reset).push(
                Pulse::Wait(second),
            ),
        ) == total_wait(train) + first + second,
{
    let a = train.push(Pulse::Step(dir));
    let b = a.push(Pulse::Wait(first));
    let c = b.push(Pulse::Reset);
    lemma_push_counts(train, Pulse::Step(dir));
    lemma_push_counts(a, Pulse::Wait(first));
    lemma_push_counts(b, Pulse::Reset);
    lemma_push_counts(c, Pulse::Wait(second));
}

/// A train at constant speed holds one step pulse for each step, and waits
/// twice the delay for each.
pub proof fn lemma_constant_train_totals(n: nat, dir: bool, delay: i64)
    ensures
        constant_train(n, dir, delay).len() == 4 * n,
        count_steps(constant_train(n, dir, delay)) == n,
        total_wait(constant_train(n, dir, delay)) == 2 * n * delay,
    decreases n,
{
    if n > 0 {
        let m = (n - 1) as nat;
        lemma_constant_train_totals(m, dir, delay);
        lemma_constant_train_grows(m, dir, delay);
        lemma_round_counts(constant_train(m, dir, delay), dir, delay, delay);
        assert(2 * n * delay == 2 * m * delay + delay + delay) by (nonlinear_arith)
            requires
                n == m + 1,
        ;
    } else {
        assert(2 * n * delay == 0) by (nonlinear_arith)
            requires
                n == 0,
        ;
    }
}

/// The sum of a schedule's delays.
pub open spec fn sum_delays(delays: Seq<i64>) -> int
    decreases delays.len(),
{
    if delays.len() == 0 {
        0
    } else {
        sum_delays(delays.drop_last()) + delays.last()
    }
}

/// A train that follows a schedule holds one step pulse for each delay, and
/// waits for the whole schedule and one settling time for each step.
pub proof fn lemma_profile_train_totals(delays: Seq<i64>, dir: bool)
    ensures
        profile_train(delays, dir).len() == 4 * delays.len(),
        count_steps(profile_train(delays, dir)) == delays.len(),
        total_wait(profile_train(delays, dir)) == sum_delays(delays) + SETTLE * delays.len(),
    decreases delays.len(),
{
    if delays.len() > 0 {
        let shorter = delays.drop_last();
        lemma_profile_train_totals(shorter, dir);
        assert(shorter.push(delays.last()) =~= delays);
        lemma_profile_train_grows(shorter, delays.last(), dir);
        lemma_round_counts(profile_train(shorter, dir), dir, delays.last(), SETTLE);
        assert(SETTLE * delays.len() == SETTLE * shorter.len() + SETTLE) by (nonlinear_arith)
            requires
                delays.len() == shorter.len() + 1,
        ;
    }
}

impl Driver {
    /// The number of steps in a signed step count.
    pub fn step_total(steps: i32) -> (count: u32)
        ensures
            count == magnitude(steps as int),
    {
        if steps >= 0 {
            steps as u32
        } else {
            (-(steps as i64)) as u32
        }
    }

    /// The pulses of a move at constant speed: for each of the `|steps|` steps
    /// a step pulse in direction `dir`, a wait of `delay` microseconds, a
    /// reset, and the same wait again.
    pub fn move_motor(steps: i32, dir: bool, delay: i64) -> (train: Vec<Pulse>)
        ensures
            train@ == constant_train(magnitude(steps as int), dir, delay),
    {
        let count: u32 = Driver::step_total(steps);
        let mut train: Vec<Pulse> = Vec::new();
        let mut i: u32 = 0;
        assert(train@ =~= constant_train(0, dir, delay));
        while i < count
            invariant
                i <= count,
                count == magnitude(steps as int),
                train@ == constant_train(i as nat, dir, delay),
            decreases count - i,
        {
            proof {
                lemma_constant_train_grows(i as nat, dir, delay);
            }
            train.push(Pulse::Step(dir));
            train.push(Pulse::Wait(delay));
            train.push(Pulse::Reset);
            train.push(Pulse::Wait(delay));
            i += 1;
        }
        train
    }

    /// The pulses of a move that follows a delay schedule: for each delay a
    /// step pulse in direction `dir`, a wait of that delay, a reset, and a
    /// wait of `SETTLE` microseconds.
    pub fn move_motor_smooth(delays: Vec<i64>, dir: bool) -> (train: Vec<Pulse>)
        ensures
            train@ == profile_train(delays@, dir),
    {
        let mut train: Vec<Pulse> = Vec::new();
        let mut i: usize = 0;
        assert(train@ =~= profile_train(delays@.take(0), dir));
        while i < delays.len()
            invariant
                i <= delays@.len(),
                train@ == profile_train(delays@.take(i as int), dir),
            decreases delays@.len() - i,
        {
            proof {
                lemma_profile_train_grows(delays@.take(i as int), delays@[i as int], dir);
                assert(delays@.take(i as int).push(delays@[i as int]) =~= delays@.take(i + 1));
            }
            train.push(Pulse::Step(dir));
            train.push(Pulse::Wait(delays[i]));
            train.push(Pulse::Reset);
            train.push(Pulse::Wait(SETTLE));
            i += 1;
        }
        assert(delays@.take(delays@.len() as int) =~= delays@);
        train
    }
}

} // verus!
