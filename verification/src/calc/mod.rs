use vstd::prelude::*;

use crate::utils::Point;

pub mod easing;
pub mod geometry;
pub mod scaling;
pub mod snapping;

verus! {

/// The fixed geometry of one assembly: where the column pivots, and the common
/// length of the two links.
#[derive(Clone, Copy, Debug, PartialEq, Eq, Structural)]
pub struct Calc {
    pub origin: Point,
    pub radius: i64,
}

impl Calc {
    /// A solver for an arm that pivots at `(origin_x, origin_y, 0)`.
    pub fn new(origin_x: i64, origin_y: i64, radius: i64) -> (calc: Calc)
        ensures
            calc.origin == (Point { x: origin_x, y: origin_y, z: 0 }),
            calc.radius == radius,
    {
        let origin = Point { x: origin_x, y: origin_y, z: 0 };
        Calc { origin, radius }
    }
}

} // verus!
