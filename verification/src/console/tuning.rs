use vstd::prelude::*;
use vstd::arithmetic::div_mod::lemma_div_pos_is_pos;

use crate::console::{App, Mode};
use crate::driver::motion::clamp_i64;
use crate::driver::plan::trunc_div;
use crate::driver::{Driver, DriverError};
use crate::history::ShiftingVec;
use crate::utils::{random_between, AngleSet, UNIT};

verus! {

/// The amount by which a key changes a delay, in microseconds.
pub const DELAY_STEP: i64 = 10;

/// `amount * num / den`, cut off toward zero and held to 64 bits.
pub open spec fn scaled_spec(amount: int, num: int, den: int) -> int
    recommends
        den > 0,
{
    clamp_i64(trunc_div(amount * num, den))
}

/// The line shown for a move that was turned down.
pub open spec fn error_line(error: DriverError) -> Seq<char> {
    match error {
        DriverError::UnReachable => "unable to reach target position, out of range"@,
        DriverError::CantNormalize =>
            "unable to normalize derived smooth, most likely a divide by zero issue"@,
    }
}

/// `amount * num / den`, cut off toward zero and held to 64 bits.
fn scaled(amount: i64, num: i64, den: i64) -> (out: i64)
    requires
        0 < num <= 16,
        0 < den <= 16,
    ensures
        out == scaled_spec(amount as int, num as int, den as int),
{
    assert(-0x8_0000_0000_0000_0000 <= amount * num <= 0x8_0000_0000_0000_0000)
        by (nonlinear_arith)
        requires
            -0x8000_0000_0000_0000 <= amount <= 0x7fff_ffff_ffff_ffff,
            0 < num <= 16,
    ;
    let wide: i128 = amount as i128 * num as i128;
    let q: i128 = if wide >= 0 {
        proof {
            lemma_div_pos_is_pos(wide as int, den as int);
        }
        wide / den as i128
    } else {
        proof {
            lemma_div_pos_is_pos(-(wide as int), den as int);
        }
        -((-wide) / den as i128)
    };
    if q > i64::MAX as i128 {
        i64::MAX
    } else if q < i64::MIN as i128 {
        i64::MIN
    } else {
        q as i64
    }
}

impl Driver {
    /// The controller with a jog a quarter longer.
    pub open spec fn with_longer_jog(self) -> Driver {
        Driver { movement_amount: scaled_spec(self.movement_amount as int, 5, 4) as i64, ..self }
    }

    /// The controller with a jog a fifth shorter.
    pub open spec fn with_shorter_jog(self) -> Driver {
        Driver { movement_amount: scaled_spec(self.movement_amount as int, 4, 5) as i64, ..self }
    }

    /// The controller with its longest delay raised by `DELAY_STEP`, as far as
    /// 64 bits go.
    pub open spec fn with_max_raised(self) -> Driver {
        Driver { micro_delay_max: clamp_i64(self.micro_delay_max + DELAY_STEP) as i64, ..self }
    }

    /// The controller with its longest delay lowered by `DELAY_STEP`, unless
    /// that would take it to zero or below, or down to the shortest delay or
    /// below.
    pub open spec fn with_max_lowered(self) -> Driver {
        if self.micro_delay_max <= DELAY_STEP || self.micro_delay_max <= self.micro_delay_min
            + DELAY_STEP {
            self
        } else {
            Driver { micro_delay_max: (self.micro_delay_max - DELAY_STEP) as i64, ..self }
        }
    }

    /// The controller with its shortest delay raised by `DELAY_STEP`, unless
    /// that would take it up to the longest delay or beyond.
    pub open spec fn with_min_raised(self) -> Driver {
        if self.micro_delay_min >= self.micro_delay_max - DELAY_STEP {
            self
        } else {
            Driver { micro_delay_min: (self.micro_delay_min + DELAY_STEP) as i64, ..self }
        }
    }

    /// The controller with its shortest delay lowered by `DELAY_STEP`, unless
    /// that would take it to zero or below.
    pub open spec fn with_min_lowered(self) -> Driver {
        if self.micro_delay_min <= DELAY_STEP {
            self
        } else {
            Driver { micro_delay_min: (self.micro_delay_min - DELAY_STEP) as i64, ..self }
        }
    }

    /// The controller with the delay of a move at constant speed raised by
    /// `DELAY_STEP`, as far as 64 bits go.
    pub open spec fn with_delay_raised(self) -> Driver {
        Driver {
            micro_delay_default: clamp_i64(self.micro_delay_default + DELAY_STEP) as i64,
            ..self
        }
    }

    /// The controller with the delay of a move at constant speed lowered by
    /// `DELAY_STEP`, unless that would take it to zero or below.
    pub open spec fn with_delay_lowered(self) -> Driver {
        if self.micro_delay_default <= DELAY_STEP {
            self
        } else {
            Driver { micro_delay_default: (self.micro_delay_default - DELAY_STEP) as i64, ..self }
        }
    }

    /// Whether the window of eased delays is in order: the shortest delay
    /// below the longest.
    pub open spec fn window_ok(self) -> bool {
        self.micro_delay_min < self.micro_delay_max
    }
}

/// No key that tunes the window of eased delays puts it out of order: where
/// the shortest delay is below the longest, it stays so.
pub proof fn lemma_window_kept(driver: Driver)
    requires
        driver.window_ok(),
    ensures
        driver.with_max_raised().window_ok(),
        driver.with_max_lowered().window_ok(),
        driver.with_min_raised().window_ok(),
        driver.with_min_lowered().window_ok(),
{
}

impl App {
    /// A pair of values drawn at random, for trying the controller out: the
    /// first from 0.1 to 2 units, the second from -1 to 2 units.
    pub fn gen_random_point() -> (point: AngleSet)
        ensures
            UNIT / 10 <= point.column_angle < 2 * UNIT,
            -UNIT <= point.beam_angle < 2 * UNIT,
            point.base_angle == 0,
    {
        let column_angle: i64 = random_between(UNIT / 10, 2 * UNIT);
        let beam_angle: i64 = random_between(-UNIT, 2 * UNIT);
        AngleSet { column_angle, beam_angle, base_angle: 0 }
    }

    /// The committed pose of the arm.
    pub fn get_current_position(&self) -> (pose: AngleSet)
        ensures
            pose == self.pose(),
    {
        let beam_angle: i64 = self.driver.get_beam_angle();
        let column_angle: i64 = self.driver.get_column_angle();
        AngleSet { beam_angle, column_angle, base_angle: 0 }
    }

    /// The committed column and beam angles, as a pose in the plane.
    pub open spec fn pose(&self) -> AngleSet {
        AngleSet {
            column_angle: self.driver.column_angle,
            beam_angle: self.driver.beam_angle,
            base_angle: 0,
        }
    }

    /// The committed pose of the arm.
    pub fn get_current_angle_set(&self) -> (pose: AngleSet)
        ensures
            pose == self.pose(),
    {
        let beam_angle: i64 = self.get_current_beam_angle();
        let column_angle: i64 = self.get_current_column_angle();
        AngleSet { column_angle, beam_angle, base_angle: 0 }
    }

    /// Puts the committed pose into the history of positions.
    pub fn add_current_position(&mut self)
        requires
            old(self).wf(),
        ensures
            final(self).wf(),
            final(self).prev_positions@ == old(self).prev_positions@.subrange(
                1,
                old(self).prev_positions@.len() as int,
            ).push(old(self).pose()),
            final(self).command_output == old(self).command_output,
            final(self).driver == old(self).driver,
            final(self).current_mode == old(self).current_mode,
            final(self).buffer == old(self).buffer,
            final(self).prev_positions_size == old(self).prev_positions_size,
            final(self).command_output_size == old(self).command_output_size,
    {
        let current_position = self.get_current_position();
        self.prev_positions.insert(current_position);
    }

    /// The name of the key mode.
    pub fn get_current_mode_string(&self) -> (name: &'static str)
        ensures
            name@ == match self.current_mode {
                Mode::Normal => "Normal"@,
                Mode::Control => "Control"@,
                Mode::Buffer => "Buffer"@,
            },
    {
        match self.current_mode {
            Mode::Normal => "Normal",
            Mode::Control => "Control",
            Mode::Buffer => "Buffer",
        }
    }

    /// The x coordinate of the arm's tip as last committed.
    pub fn get_current_x(&self) -> (x: i64)
        ensures
            x == self.driver.current_position.x,
    {
        self.driver.current_position.x
    }

    /// The y coordinate of the arm's tip as last committed.
    pub fn get_current_y(&self) -> (y: i64)
        ensures
            y == self.driver.current_position.y,
    {
        self.driver.current_position.y
    }

    /// The z coordinate of the arm's tip as last committed.
    pub fn get_current_z(&self) -> (z: i64)
        ensures
            z == self.driver.current_position.z,
    {
        self.driver.current_position.z
    }

    /// The column angle last committed.
    pub fn get_current_column_angle(&self) -> (angle: i64)
        ensures
            angle == self.driver.column_angle,
    {
        self.driver.column_angle
    }

    /// The beam angle last committed.
    pub fn get_current_beam_angle(&self) -> (angle: i64)
        ensures
            angle == self.driver.beam_angle,
    {
        self.driver.beam_angle
    }

    /// The base angle last committed.
    pub fn get_current_base_angle(&self) -> (angle: i64)
        ensures
            angle == self.driver.base_angle,
    {
        self.driver.base_angle
    }

    /// The two points of the top view: the origin, and the arm's tip by its x
    /// and z coordinates.
    pub fn get_x_z_points(&self) -> (points: Vec<(i64, i64)>)
        ensures
            points@ == seq![
                (0i64, 0i64),
                (self.driver.current_position.x, self.driver.current_position.z),
            ],
    {
        let mut points: Vec<(i64, i64)> = Vec::new();
        points.push((0, 0));
        points.push((self.driver.current_position.x, self.driver.current_position.z));
        assert(points@ =~= seq![
            (0i64, 0i64),
            (self.driver.current_position.x, self.driver.current_position.z),
        ]);
        points
    }

    /// Makes a jog a quarter longer.
    pub fn increase_movement_amount(&mut self)
        ensures
            *final(self) == (App { driver: old(self).driver.with_longer_jog(), ..*old(self) }),
    {
        self.driver.movement_amount = scaled(self.driver.movement_amount, 5, 4);
    }

    /// Makes a jog a fifth shorter, which undoes `increase_movement_amount`
    /// but for the fractions cut off.
    pub fn decrease_movement_amount(&mut self)
        ensures
            *final(self) == (App { driver: old(self).driver.with_shorter_jog(), ..*old(self) }),
    {
        self.driver.movement_amount = scaled(self.driver.movement_amount, 4, 5);
    }

    /// Raises the longest delay of an eased schedule by `DELAY_STEP`, as far
    /// as 64 bits go.
    pub fn increase_max_delay(&mut self)
        ensures
            *final(self) == (App { driver: old(self).driver.with_max_raised(), ..*old(self) }),
    {
        if self.driver.micro_delay_max <= i64::MAX - DELAY_STEP {
            self.driver.micro_delay_max += DELAY_STEP;
        } else {
            self.driver.micro_delay_max = i64::MAX;
        }
    }

    /// Lowers the longest delay by `DELAY_STEP`, unless that would take it to
    /// zero or below, or down to the shortest delay or below.
    pub fn decrease_max_delay(&mut self)
        ensures
            *final(self) == (App { driver: old(self).driver.with_max_lowered(), ..*old(self) }),
    {
        if self.driver.micro_delay_max <= DELAY_STEP || self.driver.micro_delay_max as i128
            <= self.driver.micro_delay_min as i128 + DELAY_STEP as i128 {
            return ;
        }
        self.driver.micro_delay_max -= DELAY_STEP;
    }

    /// Raises the shortest delay by `DELAY_STEP`, unless that would take it up
    /// to the longest delay or beyond.
    pub fn increase_min_delay(&mut self)
        ensures
            *final(self) == (App { driver: old(self).driver.with_min_raised(), ..*old(self) }),
    {
        if self.driver.micro_delay_min as i128 >= self.driver.micro_delay_max as i128
            - DELAY_STEP as i128 {
            return ;
        }
        self.driver.micro_delay_min += DELAY_STEP;
    }

    /// Lowers the shortest delay by `DELAY_STEP`, unless that would take it to
    /// zero or below.
    pub fn decrease_min_delay(&mut self)
        ensures
            *final(self) == (App { driver: old(self).driver.with_min_lowered(), ..*old(self) }),
    {
        if self.driver.micro_delay_min <= DELAY_STEP {
            return ;
        }
        self.driver.micro_delay_min -= DELAY_STEP;
    }

    /// Raises the delay of a move at constant speed by `DELAY_STEP`, as far as
    /// 64 bits go.
    pub fn increase_delay(&mut self)
        ensures
            *final(self) == (App { driver: old(self).driver.with_delay_raised(), ..*old(self) }),
    {
        if self.driver.micro_delay_default <= i64::MAX - DELAY_STEP {
            self.driver.micro_delay_default += DELAY_STEP;
        } else {
            self.driver.micro_delay_default = i64::MAX;
        }
    }

    /// Lowers the delay of a move at constant speed by `DELAY_STEP`, unless
    /// that would take it to zero or below.
    pub fn decrease_delay(&mut self)
        ensures
            *final(self) == (App { driver: old(self).driver.with_delay_lowered(), ..*old(self) }),
    {
        if self.driver.micro_delay_default <= DELAY_STEP {
            return ;
        }
        self.driver.micro_delay_default -= DELAY_STEP;
    }

    /// Whether `post` is what `self` becomes when only its history of
    /// positions is replaced.
    pub open spec fn only_positions_differ(self, post: App) -> bool {
        &&& post.command_output == self.command_output
        &&& post.command_output_size == self.command_output_size
        &&& post.driver == self.driver
        &&& post.current_mode == self.current_mode
        &&& post.buffer == self.buffer
    }

    /// Whether `post` is what `self` becomes when only its history of lines is
    /// replaced.
    pub open spec fn only_output_differs(self, post: App) -> bool {
        &&& post.prev_positions == self.prev_positions
        &&& post.prev_positions_size == self.prev_positions_size
        &&& post.driver == self.driver
        &&& post.current_mode == self.current_mode
        &&& post.buffer == self.buffer
    }

    /// Whether `post` is `self` with every position replaced by the filler.
    pub open spec fn positions_flushed(self, post: App) -> bool {
        &&& post.wf()
        &&& self.only_positions_differ(post)
        &&& post.prev_positions_size == self.prev_positions_size
        &&& post.prev_positions.filler() == self.prev_positions.filler()
        &&& forall|k: int|
            0 <= k < post.prev_positions@.len() ==> #[trigger] post.prev_positions@[k]
                == self.prev_positions.filler()
    }

    /// Whether `post` is `self` with every line replaced by a copy of the
    /// filler.
    pub open spec fn output_flushed(self, post: App) -> bool {
        &&& post.wf()
        &&& self.only_output_differs(post)
        &&& post.command_output_size == self.command_output_size
        &&& post.command_output.filler() == self.command_output.filler()
        &&& forall|k: int|
            0 <= k < post.command_output@.len() ==> #[trigger] post.command_output@[k]
                == self.command_output.filler()
    }

    /// Whether the history `post` is the history `pre` brought to `size`
    /// places: grown at the front by copies of the filler, or cut at the
    /// front.
    pub open spec fn resized<T: Clone>(pre: ShiftingVec<T>, post: ShiftingVec<T>, size: int) -> bool {
        &&& post.wf()
        &&& post@.len() == size
        &&& post.filler() == pre.filler()
        &&& size >= pre@.len() ==> {
            &&& post@.subrange(size - pre@.len(), size) == pre@
            &&& forall|k: int|
                0 <= k < size - pre@.len() ==> cloned(pre.filler(), #[trigger] post@[k])
        }
        &&& size <= pre@.len() ==> post@ == pre@.subrange(pre@.len() - size, pre@.len() as int)
    }

    /// Whether `post` is `self` with its history of positions brought to
    /// `size` places.
    pub open spec fn positions_resized(self, post: App, size: int) -> bool {
        &&& self.only_positions_differ(post)
        &&& post.prev_positions_size == size
        &&& App::resized(self.prev_positions, post.prev_positions, size)
    }

    /// Whether `post` is `self` with its history of lines brought to `size`
    /// places.
    pub open spec fn output_resized(self, post: App, size: int) -> bool {
        &&& self.only_output_differs(post)
        &&& post.command_output_size == size
        &&& App::resized(self.command_output, post.command_output, size)
    }

    /// A count of places raised by one, as long as it fits.
    pub open spec fn grown(size: usize) -> int {
        if size < usize::MAX {
            size + 1
        } else {
            size as int
        }
    }

    /// A count of places lowered by one, but not below one.
    pub open spec fn shrunk(size: usize) -> int {
        if size <= 1 {
            size as int
        } else {
            size - 1
        }
    }

    /// Fills the history of positions with poses at angle 0.
    pub fn flush_prev_positions(&mut self)
        requires
            old(self).wf(),
        ensures
            old(self).positions_flushed(*final(self)),
    {
        self.prev_positions.flush();
    }

    /// Fills the history of lines with copies of its filler line.
    pub fn flush_command_output(&mut self)
        requires
            old(self).wf(),
        ensures
            old(self).output_flushed(*final(self)),
    {
        self.command_output.flush();
    }

    /// Changes the number of places of a history.
    pub fn set_shifting_vec_size<T>(size: usize, vec: &mut ShiftingVec<T>) where T: Clone
        requires
            old(vec).wf(),
        ensures
            App::resized(*old(vec), *final(vec), size as int),
    {
        vec.set_size(size);
    }

    /// Gives the history of positions one more place, in front of the oldest
    /// position, as long as the count fits.
    pub fn increase_prev_points(&mut self)
        requires
            old(self).wf(),
        ensures
            final(self).wf(),
            old(self).positions_resized(*final(self), App::grown(old(self).prev_positions_size)),
    {
        if self.prev_positions_size == usize::MAX {
            assert(self.prev_positions@.subrange(0, self.prev_positions@.len() as int)
                =~= self.prev_positions@);
            return ;
        }
        self.prev_positions_size += 1;
        App::set_shifting_vec_size(self.prev_positions_size, &mut self.prev_positions);
    }

    /// Takes the oldest position out of the history, unless it is the only
    /// one.
    pub fn decrease_prev_points(&mut self)
        requires
            old(self).wf(),
        ensures
            final(self).wf(),
            old(self).positions_resized(*final(self), App::shrunk(old(self).prev_positions_size)),
    {
        if self.prev_positions_size == 1 {
            assert(self.prev_positions@.subrange(0, self.prev_positions@.len() as int)
                =~= self.prev_positions@);
            return ;
        }
        self.prev_positions_size -= 1;
        App::set_shifting_vec_size(self.prev_positions_size, &mut self.prev_positions)
    }

    /// Gives the history of lines one more place, in front of the oldest line,
    /// as long as the count fits.
    pub fn increase_command_ouput(&mut self)
        requires
            old(self).wf(),
        ensures
            final(self).wf(),
            old(self).output_resized(*final(self), App::grown(old(self).command_output_size)),
    {
        if self.command_output_size == usize::MAX {
            assert(self.command_output@.subrange(0, self.command_output@.len() as int)
                =~= self.command_output@);
            return ;
        }
        self.command_output_size += 1;
        App::set_shifting_vec_size(self.command_output_size, &mut self.command_output);
    }

    /// Takes the oldest line out of the history, unless it is the only one.
    pub fn decrease_command_output(&mut self)
        requires
            old(self).wf(),
        ensures
            final(self).wf(),
            old(self).output_resized(*final(self), App::shrunk(old(self).command_output_size)),
    {
        if self.command_output_size == 1 {
            assert(self.command_output@.subrange(0, self.command_output@.len() as int)
                =~= self.command_output@);
            return ;
        }
        self.command_output_size -= 1;
        App::set_shifting_vec_size(self.command_output_size, &mut self.command_output)
    }

    /// Puts the line for a move that was turned down into the history of
    /// lines.
    pub fn handle_driver_error_generic(&mut self, error: DriverError)
        requires
            old(self).wf(),
        ensures
            final(self).wf(),
            final(self).command_output@.len() == old(self).command_output@.len(),
            final(self).command_output@.last()@ == error_line(error),
            final(self).command_output@.drop_last() == old(self).command_output@.subrange(
                1,
                old(self).command_output@.len() as int,
            ),
            final(self).prev_positions == old(self).prev_positions,
            final(self).driver == old(self).driver,
            final(self).current_mode == old(self).current_mode,
            final(self).buffer == old(self).buffer,
            final(self).prev_positions_size == old(self).prev_positions_size,
            final(self).command_output_size == old(self).command_output_size,
    {
        let error_message: String = match error {
            DriverError::UnReachable => "unable to reach target position, out of range".to_owned(),
            DriverError::CantNormalize =>
                "unable to normalize derived smooth, most likely a divide by zero issue".to_owned(),
        };
        self.command_output.insert(error_message);
        assert(self.command_output@.drop_last() =~= old(self).command_output@.subrange(
            1,
            old(self).command_output@.len() as int,
        ));
    }
}

} // verus!
