use vstd::prelude::*;

use crate::calc::geometry::{reach_spec, reach_spec_3d};
use crate::calc::snapping::{lemma_snap_is_multiple, snap_fits, snap_spec};
use crate::calc::Calc;
use crate::driver::plan::{direction_spec, steps_spec};
use crate::driver::pulse::{constant_train, magnitude, profile_train, Pulse};
use crate::driver::schedule::{eased_delay, lemma_eased_window};
use crate::driver::{Direction, Driver, DriverError};
use crate::utils::{random_between, AngleSet, Point, UNIT};

verus! {

/// What one joint does in a move: how many steps it takes, which way, and the
/// pulses that its worker plays to the motor.
#[derive(Debug)]
pub struct JointMove {
    pub steps: i32,
    pub direction: bool,
    pub pulses: Vec<Pulse>,
}

/// A move that has been planned and is ready to be played: one part for each
/// joint that takes part, and the snapped angles that the joints will have
/// reached when all parts have been played.
#[derive(Debug)]
pub struct Move {
    pub column: JointMove,
    pub beam: JointMove,
    pub base: Option<JointMove>,
    pub angles: AngleSet,
}

/// The delays of an eased schedule of `n` steps, in order.
pub open spec fn eased_schedule(n: nat, delay_min: i64, delay_max: i64) -> Seq<i64> {
    Seq::new(n, |k: int| eased_delay(n as int, k, delay_min as int, delay_max as int) as i64)
}

/// Every delay of an eased schedule lies in its window, whatever the number of
/// steps.
pub proof fn lemma_eased_schedule_window(n: nat, delay_min: i64, delay_max: i64)
    requires
        delay_min <= delay_max,
    ensures
        eased_schedule(n, delay_min, delay_max).len() == n,
        forall|k: int|
            0 <= k < n ==> delay_min <= #[trigger] eased_schedule(n, delay_min, delay_max)[k]
                <= delay_max,
{
    assert forall|k: int| 0 <= k < n implies delay_min <= #[trigger] eased_schedule(
        n,
        delay_min,
        delay_max,
    )[k] <= delay_max by {
        lemma_eased_window(n as int, k, delay_min as int, delay_max as int);
    }
}

/// Whether `part` is the move of a joint that turns by `delta` at constant
/// speed.
pub open spec fn constant_joint(part: JointMove, delta: int, step_degree: int, delay: i64) -> bool {
    &&& part.steps == steps_spec(delta, step_degree)
    &&& part.direction == direction_spec(delta)
    &&& part.pulses@ == constant_train(magnitude(part.steps as int), part.direction, delay)
}

/// Whether `part` is the move of a joint that turns by `delta` on an eased
/// schedule.
pub open spec fn eased_joint(
    part: JointMove,
    delta: int,
    step_degree: int,
    delay_min: i64,
    delay_max: i64,
) -> bool {
    &&& part.steps == steps_spec(delta, step_degree)
    &&& part.direction == direction_spec(delta)
    &&& part.pulses@ == profile_train(
        eased_schedule(magnitude(part.steps as int), delay_min, delay_max),
        part.direction,
    )
}

/// `v`, or the 64-bit value nearest to it where it does not fit.
pub open spec fn clamp_i64(v: int) -> int {
    if v < i64::MIN {
        i64::MIN as int
    } else if v > i64::MAX {
        i64::MAX as int
    } else {
        v
    }
}

/// Where a jog by `amount` from `(x, y)` goes: left and right along the x
/// axis, up and down along the y axis, held to 64 bits.
pub open spec fn jog_spec(x: int, y: int, amount: int, direction: Direction) -> (int, int) {
    match direction {
        Direction::Left => (clamp_i64(x - amount), y),
        Direction::Right => (clamp_i64(x + amount), y),
        Direction::Up => (x, clamp_i64(y + amount)),
        Direction::Down => (x, clamp_i64(y - amount)),
    }
}

/// The sum of two 64-bit values, held to 64 bits.
fn clamped_sum(a: i64, b: i128) -> (sum: i64)
    requires
        -0x8000_0000_0000_0000 <= b <= 0x8000_0000_0000_0000,
    ensures
        sum == clamp_i64(a + b),
{
    let wide: i128 = a as i128 + b;
    if wide > i64::MAX as i128 {
        i64::MAX
    } else if wide < i64::MIN as i128 {
        i64::MIN
    } else {
        wide as i64
    }
}

impl Driver {
    /// Whether every angle that the controller holds, committed or in flight,
    /// is a multiple of its positive step size.
    pub open spec fn wf(&self) -> bool {
        &&& self.step_degree > 0
        &&& self.column_angle as int % self.step_degree as int == 0
        &&& self.beam_angle as int % self.step_degree as int == 0
        &&& self.base_angle as int % self.step_degree as int == 0
        &&& self.in_flight matches Some(a) ==> {
            &&& a.column_angle as int % self.step_degree as int == 0
            &&& a.beam_angle as int % self.step_degree as int == 0
            &&& a.base_angle as int % self.step_degree as int == 0
        }
    }

    /// The angles that a move in the plane toward `angles` leaves the joints
    /// at: column and beam snapped, the base where it is.
    pub open spec fn snapped_2d(&self, angles: AngleSet) -> AngleSet {
        AngleSet {
            column_angle: snap_spec(angles.column_angle as int, self.step_degree as int) as i64,
            beam_angle: snap_spec(angles.beam_angle as int, self.step_degree as int) as i64,
            base_angle: self.base_angle,
        }
    }

    /// The angles that a move in space toward `angles` leaves the joints at:
    /// all three snapped.
    pub open spec fn snapped_3d(&self, angles: AngleSet) -> AngleSet {
        AngleSet {
            column_angle: snap_spec(angles.column_angle as int, self.step_degree as int) as i64,
            beam_angle: snap_spec(angles.beam_angle as int, self.step_degree as int) as i64,
            base_angle: snap_spec(angles.base_angle as int, self.step_degree as int) as i64,
        }
    }

    /// A controller at rest: all joints at angle 0 with the arm stretched out
    /// along the x axis, a quarter of a degree per step, jogs of a hundredth
    /// of a unit, no delay at constant speed and 1750 to 4000 microseconds on
    /// eased schedules, a link length of one unit about the origin, and no
    /// move in flight.
    pub open spec fn initial() -> Driver {
        Driver {
            column_angle: 0,
            beam_angle: 0,
            base_angle: 0,
            step_degree: 250_000,
            movement_amount: 10_000,
            micro_delay_default: 0,
            micro_delay_max: 4000,
            micro_delay_min: 1750,
            current_position: Point { x: 2_000_000, y: 0, z: 0 },
            calc: Calc { origin: Point { x: 0, y: 0, z: 0 }, radius: 1_000_000 },
            in_flight: None,
        }
    }

    /// A controller at rest, as `initial` describes it.
    pub fn new() -> (driver: Driver)
        ensures
            driver == Driver::initial(),
            driver.wf(),
    {
        Driver {
            column_angle: 0,
            beam_angle: 0,
            base_angle: 0,
            step_degree: UNIT / 4,
            movement_amount: UNIT / 100,
            micro_delay_default: 0,
            micro_delay_max: 4000,
            micro_delay_min: 1750,
            current_position: Point { x: 2 * UNIT, y: 0, z: 0 },
            calc: Calc::new(0, 0, UNIT),
            in_flight: None,
        }
    }

    /// The part of one joint in a move at constant speed.
    fn constant_part(steps: i32, delta: i128, delay: i64) -> (part: JointMove)
        ensures
            part.steps == steps,
            part.direction == direction_spec(delta as int),
            part.pulses@ == constant_train(magnitude(steps as int), part.direction, delay),
    {
        let direction: bool = delta >= 0;
        let pulses: Vec<Pulse> = Driver::move_motor(steps, direction, delay);
        JointMove { steps, direction, pulses }
    }

    /// The part of one joint in a move on an eased schedule.
    fn eased_part(steps: i32, delta: i128, delays: Vec<i64>) -> (part: JointMove)
        ensures
            part.steps == steps,
            part.direction == direction_spec(delta as int),
            part.pulses@ == profile_train(delays@, part.direction),
    {
        let direction: bool = delta >= 0;
        let pulses: Vec<Pulse> = Driver::move_motor_smooth(delays, direction);
        JointMove { steps, direction, pulses }
    }

    /// Plans a move in the plane to `(x, y)` at constant speed.
    ///
    /// `angles` are the joint angles that reach the target, as the caller's
    /// solver found them. A target out of reach is turned down and leaves the
    /// controller as it was. Otherwise the move is handed out, with one train
    /// of pulses for the column and one for the beam, and its snapped angles
    /// are held in flight until `commit`.
    pub fn goto_point(&mut self, x: i64, y: i64, angles: AngleSet) -> (res: Result<
        Move,
        DriverError,
    >)
        requires
            old(self).step_degree > 0,
            old(self).in_flight is None,
            snap_fits(angles.column_angle as int, old(self).step_degree as int),
            snap_fits(angles.beam_angle as int, old(self).step_degree as int),
        ensures
            res is Err <==> !reach_spec(old(self).calc, x as int, y as int),
            res matches Err(e) ==> e == DriverError::UnReachable && *final(self) == *old(self),
            res matches Ok(m) ==> {
                &&& m.angles == old(self).snapped_2d(angles)
                &&& constant_joint(
                    m.column,
                    old(self).column_delta(angles.column_angle as int),
                    old(self).step_degree as int,
                    old(self).micro_delay_default,
                )
                &&& constant_joint(
                    m.beam,
                    old(self).beam_delta(angles.beam_angle as int),
                    old(self).step_degree as int,
                    old(self).micro_delay_default,
                )
                &&& m.base is None
                &&& *final(self) == (Driver { in_flight: Some(m.angles), ..*old(self) })
            },
            old(self).wf() ==> final(self).wf(),
    {
        if !self.calc.reaches(x, y) {
            return Err(DriverError::UnReachable);
        }
        let (column_steps, beam_steps, column_snapped, beam_snapped) = self.get_steps_2d(
            angles.column_angle,
            angles.beam_angle,
        );
        let column_delta: i128 = column_snapped as i128 - self.column_angle as i128;
        let beam_delta: i128 = beam_snapped as i128 - self.beam_angle as i128
            - self.column_angle as i128;
        let column: JointMove = Driver::constant_part(
            column_steps,
            column_delta,
            self.micro_delay_default,
        );
        let beam: JointMove = Driver::constant_part(beam_steps, beam_delta, self.micro_delay_default);
        let target = AngleSet {
            column_angle: column_snapped,
            beam_angle: beam_snapped,
            base_angle: self.base_angle,
        };
        proof {
            lemma_snap_is_multiple(angles.column_angle as int, self.step_degree as int);
            lemma_snap_is_multiple(angles.beam_angle as int, self.step_degree as int);
        }
        self.in_flight = Some(target);
        Ok(Move { column, beam, base: None, angles: target })
    }

    /// Plans a move in the plane to `(x, y)` on eased schedules: each joint
    /// starts slowly, speeds up and slows down again, and every wait after a
    /// step pulse lies in the window from the shortest to the longest delay.
    ///
    /// A target out of reach is turned down as unreachable. A move in which
    /// the column or the beam takes no step has no eased schedule and is
    /// turned down too. A move that is turned down hands out no pulse for any
    /// joint and leaves the controller as it was.
    pub fn goto_point_smooth(&mut self, x: i64, y: i64, angles: AngleSet) -> (res: Result<
        Move,
        DriverError,
    >)
        requires
            old(self).step_degree > 0,
            old(self).in_flight is None,
            snap_fits(angles.column_angle as int, old(self).step_degree as int),
            snap_fits(angles.beam_angle as int, old(self).step_degree as int),
        ensures
            res is Err <==> {
                ||| !reach_spec(old(self).calc, x as int, y as int)
                ||| steps_spec(
                    old(self).column_delta(angles.column_angle as int),
                    old(self).step_degree as int,
                ) == 0
                ||| steps_spec(
                    old(self).beam_delta(angles.beam_angle as int),
                    old(self).step_degree as int,
                ) == 0
            },
            res matches Err(e) ==> {
                &&& (e == DriverError::UnReachable <==> !reach_spec(
                    old(self).calc,
                    x as int,
                    y as int,
                ))
                &&& (e == DriverError::CantNormalize <==> reach_spec(
                    old(self).calc,
                    x as int,
                    y as int,
                ))
                &&& *final(self) == *old(self)
            },
            res matches Ok(m) ==> {
                &&& m.angles == old(self).snapped_2d(angles)
                &&& eased_joint(
                    m.column,
                    old(self).column_delta(angles.column_angle as int),
                    old(self).step_degree as int,
                    old(self).micro_delay_min,
                    old(self).micro_delay_max,
                )
                &&& eased_joint(
                    m.beam,
                    old(self).beam_delta(angles.beam_angle as int),
                    old(self).step_degree as int,
                    old(self).micro_delay_min,
                    old(self).micro_delay_max,
                )
                &&& m.base is None
                &&& *final(self) == (Driver { in_flight: Some(m.angles), ..*old(self) })
            },
            old(self).wf() ==> final(self).wf(),
    {
        if !self.calc.reaches(x, y) {
            return Err(DriverError::UnReachable);
        }
        let (column_steps, beam_steps, column_snapped, beam_snapped) = self.get_steps_2d(
            angles.column_angle,
            angles.beam_angle,
        );
        let column_delta: i128 = column_snapped as i128 - self.column_angle as i128;
        let beam_delta: i128 = beam_snapped as i128 - self.beam_angle as i128
            - self.column_angle as i128;
        let column_delays: Vec<i64> = match Driver::eased_delays(
            column_steps,
            self.micro_delay_min,
            self.micro_delay_max,
        ) {
            Ok(delays) => delays,
            Err(e) => {
                return Err(e);
            },
        };
        let beam_delays: Vec<i64> = match Driver::eased_delays(
            beam_steps,
            self.micro_delay_min,
            self.micro_delay_max,
        ) {
            Ok(delays) => delays,
            Err(e) => {
                return Err(e);
            },
        };
        assert(column_delays@ =~= eased_schedule(
            magnitude(column_steps as int),
            self.micro_delay_min,
            self.micro_delay_max,
        ));
        assert(beam_delays@ =~= eased_schedule(
            magnitude(beam_steps as int),
            self.micro_delay_min,
            self.micro_delay_max,
        ));
        let column: JointMove = Driver::eased_part(column_steps, column_delta, column_delays);
        let beam: JointMove = Driver::eased_part(beam_steps, beam_delta, beam_delays);
        let target = AngleSet {
            column_angle: column_snapped,
            beam_angle: beam_snapped,
            base_angle: self.base_angle,
        };
        proof {
            lemma_snap_is_multiple(angles.column_angle as int, self.step_degree as int);
            lemma_snap_is_multiple(angles.beam_angle as int, self.step_degree as int);
        }
        self.in_flight = Some(target);
        Ok(Move { column, beam, base: None, angles: target })
    }

    /// Plans a move in space to `(x, y, z)` at constant speed, the base joint
    /// taking part. The target must lie within two link lengths of the origin
    /// in space.
    pub fn goto_point_3d(&mut self, x: i64, y: i64, z: i64, angles: AngleSet) -> (res: Result<
        Move,
        DriverError,
    >)
        requires
            old(self).step_degree > 0,
            old(self).in_flight is None,
            snap_fits(angles.column_angle as int, old(self).step_degree as int),
            snap_fits(angles.beam_angle as int, old(self).step_degree as int),
            snap_fits(angles.base_angle as int, old(self).step_degree as int),
        ensures
            res is Err <==> !reach_spec_3d(old(self).calc, x as int, y as int, z as int),
            res matches Err(e) ==> e == DriverError::UnReachable && *final(self) == *old(self),
            res matches Ok(m) ==> {
                &&& m.angles == old(self).snapped_3d(angles)
                &&& constant_joint(
                    m.column,
                    old(self).column_delta(angles.column_angle as int),
                    old(self).step_degree as int,
                    old(self).micro_delay_default,
                )
                &&& constant_joint(
                    m.beam,
                    old(self).beam_delta(angles.beam_angle as int),
                    old(self).step_degree as int,
                    old(self).micro_delay_default,
                )
                &&& m.base matches Some(part) && constant_joint(
                    part,
                    old(self).base_delta(angles.base_angle as int),
                    old(self).step_degree as int,
                    old(self).micro_delay_default,
                )
                &&& *final(self) == (Driver { in_flight: Some(m.angles), ..*old(self) })
            },
            old(self).wf() ==> final(self).wf(),
    {
        if !self.calc.reaches_3d(x, y, z) {
            return Err(DriverError::UnReachable);
        }
        let (column_steps, beam_steps, base_steps, column_snapped, beam_snapped, base_snapped) =
            self.get_steps_3d(angles.column_angle, angles.beam_angle, angles.base_angle);
        let column_delta: i128 = column_snapped as i128 - self.column_angle as i128;
        let beam_delta: i128 = beam_snapped as i128 - self.beam_angle as i128
            - self.column_angle as i128;
        let base_delta: i128 = base_snapped as i128 - self.base_angle as i128;
        let column: JointMove = Driver::constant_part(
            column_steps,
            column_delta,
            self.micro_delay_default,
        );
        let beam: JointMove = Driver::constant_part(beam_steps, beam_delta, self.micro_delay_default);
        let base: JointMove = Driver::constant_part(base_steps, base_delta, self.micro_delay_default);
        let target = AngleSet {
            column_angle: column_snapped,
            beam_angle: beam_snapped,
            base_angle: base_snapped,
        };
        proof {
            lemma_snap_is_multiple(angles.column_angle as int, self.step_degree as int);
            lemma_snap_is_multiple(angles.beam_angle as int, self.step_degree as int);
            lemma_snap_is_multiple(angles.base_angle as int, self.step_degree as int);
        }
        self.in_flight = Some(target);
        Ok(Move { column, beam, base: Some(base), angles: target })
    }

    /// Commits the move in flight, once every joint has played its pulses: the
    /// joints are now at the move's snapped angles, and the arm's tip at
    /// `position`, the image of those angles under the caller's forward
    /// kinematics.
    pub fn commit(&mut self, position: Point)
        requires
            old(self).in_flight is Some,
        ensures
            *final(self) == (Driver {
                column_angle: old(self).in_flight->0.column_angle,
                beam_angle: old(self).in_flight->0.beam_angle,
                base_angle: old(self).in_flight->0.base_angle,
                current_position: position,
                in_flight: None,
                ..*old(self)
            }),
            old(self).wf() ==> final(self).wf(),
    {
        match self.in_flight {
            Some(angles) => {
                self.column_angle = angles.column_angle;
                self.beam_angle = angles.beam_angle;
                self.base_angle = angles.base_angle;
                self.current_position = position;
                self.in_flight = None;
            },
            None => {},
        }
    }

    /// The target of a jog: one `movement_amount` from the current position
    /// along the x axis (left, right) or the y axis (up, down). A coordinate
    /// that would leave the 64-bit range stays at its end.
    pub fn move_direction(&self, direction: Direction) -> (target: (i64, i64))
        ensures
            (target.0 as int, target.1 as int) == jog_spec(
                self.current_position.x as int,
                self.current_position.y as int,
                self.movement_amount as int,
                direction,
            ),
    {
        let x: i64 = self.current_position.x;
        let y: i64 = self.current_position.y;
        let amount: i128 = self.movement_amount as i128;
        match direction {
            Direction::Left => (clamped_sum(x, -amount), y),
            Direction::Right => (clamped_sum(x, amount), y),
            Direction::Up => (x, clamped_sum(y, amount)),
            Direction::Down => (x, clamped_sum(y, -amount)),
        }
    }

    /// An angle drawn at random from the half-open turn from -180 to 180
    /// degrees.
    pub fn get_random_angle() -> (angle: i64)
        ensures
            -180 * UNIT <= angle < 180 * UNIT,
    {
        random_between(-180 * UNIT, 180 * UNIT)
    }

    /// The beam angle last committed.
    pub fn get_beam_angle(&self) -> (angle: i64)
        ensures
            angle == self.beam_angle,
    {
        self.beam_angle
    }

    /// The column angle last committed.
    pub fn get_column_angle(&self) -> (angle: i64)
        ensures
            angle == self.column_angle,
    {
        self.column_angle
    }

    /// The base angle last committed.
    pub fn get_base_angle(&self) -> (angle: i64)
        ensures
            angle == self.base_angle,
    {
        self.base_angle
    }

    /// The position of the arm's tip as last committed.
    pub fn get_current_position(&self) -> (position: Point)
        ensures
            position == self.current_position,
    {
        self.current_position
    }
}

} // verus!
