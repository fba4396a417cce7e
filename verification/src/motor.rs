use vstd::prelude::*;

use crate::calc::snapping::{snap_fits, snap_spec};
use crate::calc::Calc;
use crate::driver::motion::eased_schedule;
use crate::driver::plan::steps_spec;
use crate::driver::pulse::{magnitude, profile_train, Pulse};
use crate::driver::Driver;

verus! {

/// One joint driven on its own: the two pins of its stepper, and the angle of
/// one step. The line that sets its direction is wired the other way round:
/// it is high for a turn back.
#[derive(Clone, Copy, Debug, PartialEq, Eq, Structural)]
pub struct Motor {
    pub step_degree: i64,
    pub dir: u8,
    pub step: u8,
}

/// A schedule of `n` steps that all wait `delay`.
pub open spec fn even_schedule(n: nat, delay: i64) -> Seq<i64> {
    Seq::new(n, |k: int| delay)
}

impl Motor {
    /// A motor on the pins `dir` and `step` that turns `step_degree` with each
    /// step.
    pub fn new(step_degree: i64, dir: u8, step: u8) -> (motor: Motor)
        ensures
            motor == (Motor { step_degree, dir, step }),
    {
        Motor { step_degree, dir, step }
    }

    /// The steps of a turn by `degrees`, snapped to the step size.
    pub open spec fn steps_of(&self, degrees: int) -> int {
        steps_spec(snap_spec(degrees, self.step_degree as int), self.step_degree as int)
    }

    /// The pulses that turn the joint by `steps` steps, each waiting `delay`
    /// microseconds after the step pulse and the settling time after the
    /// reset. The direction line is high where `steps` is negative.
    pub fn move_steps(&self, steps: i32, delay: i64) -> (train: Vec<Pulse>)
        ensures
            train@ == profile_train(even_schedule(magnitude(steps as int), delay), steps < 0),
    {
        let dir: bool = steps >= 0;
        let delays: Vec<i64> = Driver::constant_delays(steps, delay);
        assert(delays@ =~= even_schedule(magnitude(steps as int), delay));
        Driver::move_motor_smooth(delays, !dir)
    }

    /// The pulses that turn the joint by `degrees`, snapped to the step size,
    /// at constant speed.
    pub fn move_degree(&self, degrees: i64, delay: i64) -> (train: Vec<Pulse>)
        requires
            self.step_degree > 0,
            snap_fits(degrees as int, self.step_degree as int),
        ensures
            train@ == profile_train(
                even_schedule(magnitude(self.steps_of(degrees as int)), delay),
                self.steps_of(degrees as int) < 0,
            ),
    {
        let degrees_snapped: i64 = Calc::snap(degrees, self.step_degree);
        let steps: i32 = Driver::steps_for(degrees_snapped as i128, self.step_degree);
        self.move_steps(steps, delay)
    }

    /// The pulses that turn the joint by `degrees`, snapped to the step size,
    /// on an eased schedule between `min_delay` and `max_delay`. A turn of no
    /// step has no such schedule: the train is empty. The direction line is
    /// high where `degrees` is negative.
    pub fn move_smooth(&self, degrees: i64, max_delay: i64, min_delay: i64) -> (train: Vec<Pulse>)
        requires
            self.step_degree > 0,
            snap_fits(degrees as int, self.step_degree as int),
        ensures
            train@ == profile_train(
                eased_schedule(magnitude(self.steps_of(degrees as int)), min_delay, max_delay),
                degrees < 0,
            ),
    {
        let degrees_snapped: i64 = Calc::snap(degrees, self.step_degree);
        let dir: bool = degrees >= 0;
        let steps: i32 = Driver::steps_for(degrees_snapped as i128, self.step_degree);
        match Driver::eased_delays(steps, min_delay, max_delay) {
            Ok(delays) => {
                assert(delays@ =~= eased_schedule(magnitude(steps as int), min_delay, max_delay));
                Driver::move_motor_smooth(delays, !dir)
            },
            Err(_) => {
                let train: Vec<Pulse> = Vec::new();
                assert(train@ =~= profile_train(
                    eased_schedule(magnitude(steps as int), min_delay, max_delay),
                    degrees < 0,
                ));
                train
            },
        }
    }
}

} // verus!
