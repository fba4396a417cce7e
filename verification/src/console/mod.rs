use vstd::prelude::*;

use crate::driver::{Direction, Driver};
use crate::history::ShiftingVec;
use crate::utils::AngleSet;

pub mod input;
pub mod tuning;

verus! {

/// What the front end hears from the terminal: a key, or the tick of its
/// clock.
#[derive(Debug, PartialEq, Eq)]
pub enum Event<I> {
    Input(I),
    Tick,
}

/// What the keys mean at the moment.
#[derive(Clone, Copy, Debug, PartialEq, Eq, Structural)]
pub enum Mode {
    /// Keys manage the histories and the session.
    Normal,
    /// Keys move the arm and tune the controller.
    Control,
    /// Keys edit the text of the next target.
    Buffer,
}

/// A key of the terminal, as far as the front end tells keys apart.
#[derive(Clone, Copy, Debug, PartialEq, Eq, Structural)]
pub enum Key {
    Esc,
    Enter,
    Backspace,
    Delete,
    Left,
    Right,
    Up,
    Down,
    Char(char),
    Other,
}

/// What is left for the caller to do after a key: the work that needs the
/// terminal, the disk, the solver or the motors.
#[derive(Clone, Copy, Debug, PartialEq, Eq, Structural)]
pub enum Command {
    /// Nothing.
    Idle,
    /// Restore the terminal, save the angles and leave.
    Quit,
    /// Show the positions of the joints.
    Dump,
    /// Go to a target drawn at random.
    RandomPoint,
    /// Save the angles.
    Save,
    /// Jog one movement amount in a direction.
    Jog(Direction),
    /// Go to the target in the buffer at constant speed.
    Goto,
    /// Go to the target in the buffer on eased schedules.
    GotoSmooth,
}

/// The front end's state: the two histories on screen, the key mode, the text
/// of the next target, and the controller.
pub struct App {
    pub prev_positions: ShiftingVec<AngleSet>,
    pub prev_positions_size: usize,
    pub command_output: ShiftingVec<String>,
    pub command_output_size: usize,
    pub current_mode: Mode,
    pub buffer: String,
    pub driver: Driver,
}

/// The number of places that each history starts with.
pub const HISTORY_SIZE: usize = 10;

impl App {
    /// Whether the two histories are as long as the front end believes, and
    /// hold at least one place each.
    pub open spec fn wf(&self) -> bool {
        &&& self.prev_positions.wf()
        &&& self.command_output.wf()
        &&& self.prev_positions@.len() == self.prev_positions_size
        &&& self.command_output@.len() == self.command_output_size
        &&& self.prev_positions_size >= 1
        &&& self.command_output_size >= 1
    }

    /// A front end in normal mode with an empty buffer, a controller at rest,
    /// and two histories of `HISTORY_SIZE` places: of poses at angle 0, and of
    /// empty lines.
    pub fn new() -> (app: App)
        ensures
            app.wf(),
            app.current_mode == Mode::Normal,
            app.buffer@ == Seq::<char>::empty(),
            app.prev_positions_size == HISTORY_SIZE,
            app.command_output_size == HISTORY_SIZE,
            forall|k: int|
                0 <= k < HISTORY_SIZE ==> #[trigger] app.prev_positions@[k] == (AngleSet {
                    column_angle: 0,
                    beam_angle: 0,
                    base_angle: 0,
                }),
            forall|k: int|
                0 <= k < HISTORY_SIZE ==> (#[trigger] app.command_output@[k])@ == Seq::<
                    char,
                >::empty(),
            app.driver == Driver::initial(),
    {
        let default_angleset = AngleSet { column_angle: 0, beam_angle: 0, base_angle: 0 };
        let prev_positions = ShiftingVec::<AngleSet>::initalize(HISTORY_SIZE, default_angleset);
        let default_output = String::new();
        let command_output = ShiftingVec::<String>::initalize(HISTORY_SIZE, default_output);
        App {
            prev_positions,
            prev_positions_size: HISTORY_SIZE,
            command_output,
            command_output_size: HISTORY_SIZE,
            current_mode: Mode::Normal,
            buffer: String::new(),
            driver: Driver::new(),
        }
    }
}

} // verus!
