use vstd::prelude::*;

use crate::calc::Calc;
use crate::utils::{AngleSet, Point};

pub mod motion;
pub mod plan;
pub mod pulse;
pub mod schedule;

verus! {

/// Why a move was turned down.
#[derive(Clone, Copy, Debug, PartialEq, Eq, Structural)]
pub enum DriverError {
    /// The target lies farther from the origin than two link lengths.
    UnReachable,
    /// A joint would not move at all, so no eased schedule can be laid out.
    CantNormalize,
}

/// The four ways to jog the arm in its plane.
#[derive(Clone, Copy, Debug, PartialEq, Eq, Structural)]
pub enum Direction {
    Up,
    Down,
    Left,
    Right,
}

/// The controller's state: the angles last committed, the tuning values, and
/// the angles of a move that has been handed out and not yet committed.
#[derive(Clone, Copy, Debug, PartialEq, Eq, Structural)]
pub struct Driver {
    pub column_angle: i64,
    pub beam_angle: i64,
    pub base_angle: i64,
    pub step_degree: i64,
    pub movement_amount: i64,
    pub micro_delay_default: i64,
    pub micro_delay_max: i64,
    pub micro_delay_min: i64,
    pub current_position: Point,
    pub calc: Calc,
    pub in_flight: Option<AngleSet>,
}

} // verus!
