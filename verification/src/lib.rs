//! Fixed-point control logic for a two-link stepper arm: reachability and
//! distance, angle snapping, step planning, delay profiles, pulse trains and
//! the controller that ties them together.
//!
//! Lengths and angles are integers. A length counts millionths of the link
//! length unit, an angle counts millionths of a degree.

pub mod calc;
pub mod console;
pub mod driver;
pub mod history;
pub mod motor;
pub mod utils;
