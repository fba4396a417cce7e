use stepper_arm::driver::motion::Move;
use stepper_arm::driver::pulse::Pulse;
use stepper_arm::driver::{Direction, Driver, DriverError};
use stepper_arm::utils::{AngleSet, Point};

fn to_units(v: f64) -> i64 {
    (v * 1_000_000.0).round() as i64
}

fn solve(x: f64, y: f64) -> AngleSet {
    let d = (x * x + y * y).sqrt();
    let a = d / 2.0;
    let h = (1.0 - a * a).sqrt();
    let column = h.atan2(a) + y.atan2(x);
    let elbow = (column.cos(), column.sin());
    let beam = (y - elbow.1).atan2(x - elbow.0);
    AngleSet {
        column_angle: to_units(column.to_degrees()),
        beam_angle: to_units(beam.to_degrees()),
        base_angle: 0,
    }
}

fn forward(column_angle: i64, beam_angle: i64) -> (f64, f64) {
    let column = (column_angle as f64 / 1_000_000.0).to_radians();
    let beam = (beam_angle as f64 / 1_000_000.0).to_radians();
    (column.cos() + beam.cos(), column.sin() + beam.sin())
}

fn steps_in(train: &[Pulse]) -> usize {
    train.iter().filter(|p| matches!(p, Pulse::Step(_))).count()
}

#[test]
fn new_controller_is_at_rest() {
    let driver = Driver::new();
    assert_eq!(driver.column_angle, 0);
    assert_eq!(driver.beam_angle, 0);
    assert_eq!(driver.base_angle, 0);
    assert_eq!(driver.step_degree, 250_000);
    assert_eq!(driver.movement_amount, 10_000);
    assert_eq!(driver.micro_delay_default, 0);
    assert_eq!(driver.micro_delay_min, 1750);
    assert_eq!(driver.micro_delay_max, 4000);
    assert_eq!(driver.current_position, Point { x: 2_000_000, y: 0, z: 0 });
    assert_eq!(driver.calc.origin, Point { x: 0, y: 0, z: 0 });
    assert_eq!(driver.calc.radius, 1_000_000);
    assert_eq!(driver.in_flight, None);
    assert_eq!(driver.get_column_angle(), 0);
    assert_eq!(driver.get_beam_angle(), 0);
    assert_eq!(driver.get_base_angle(), 0);
    assert_eq!(driver.get_current_position(), Point { x: 2_000_000, y: 0, z: 0 });
}

#[test]
fn plan_in_the_plane() {
    let driver = Driver::new();
    assert_eq!(
        driver.get_steps_2d(60_000_000, -60_100_000),
        (240, -240, 60_000_000, -60_000_000)
    );
    let mut turned = driver;
    turned.column_angle = 10_000_000;
    turned.beam_angle = 5_000_000;
    assert_eq!(turned.get_steps_2d(10_130_000, 20_000_000), (1, 20, 10_250_000, 20_000_000));
}

#[test]
fn plan_cuts_a_broken_step_off_toward_zero() {
    let mut driver = Driver::new();
    driver.column_angle = 100_000;
    driver.beam_angle = -100_000;
    assert_eq!(driver.get_steps_2d(1_000_000, -1_000_000), (3, -4, 1_000_000, -1_000_000));
}

#[test]
fn plan_in_space() {
    let mut driver = Driver::new();
    driver.base_angle = 1_000_000;
    assert_eq!(
        driver.get_steps_3d(60_000_000, -60_100_000, 45_100_000),
        (240, -240, 176, 60_000_000, -60_000_000, 45_000_000)
    );
}

#[test]
fn plan_holds_the_steps_to_32_bits() {
    let mut driver = Driver::new();
    driver.step_degree = 1;
    assert_eq!(driver.steps_for_probe(i64::MAX), i32::MAX);
    assert_eq!(driver.steps_for_probe(i64::MIN), i32::MIN);
}

trait Probe {
    fn steps_for_probe(&self, target: i64) -> i32;
}

impl Probe for Driver {
    fn steps_for_probe(&self, target: i64) -> i32 {
        self.get_steps_2d(target, 0).0
    }
}

#[test]
fn steps_for_divides_and_clamps() {
    assert_eq!(Driver::steps_for(1_000_000, 250_000), 4);
    assert_eq!(Driver::steps_for(999_999, 250_000), 3);
    assert_eq!(Driver::steps_for(-999_999, 250_000), -3);
    assert_eq!(Driver::steps_for(-1_000_000, 250_000), -4);
    assert_eq!(Driver::steps_for(0, 250_000), 0);
    assert_eq!(Driver::steps_for(i128::MAX, 1), i32::MAX);
    assert_eq!(Driver::steps_for(i128::MIN, i64::MAX), i32::MIN);
    assert_eq!(Driver::steps_for(-2_147_483_648, 1), i32::MIN);
    assert_eq!(Driver::steps_for(2_147_483_648, 1), i32::MAX);
}

#[test]
fn goto_hands_out_one_train_for_each_joint() {
    let mut driver = Driver::new();
    driver.micro_delay_default = 20;
    let angles = AngleSet { column_angle: 60_000_000, beam_angle: -60_100_000, base_angle: 7 };
    let plan: Move = driver.goto_point(1_000_000, 0, angles).unwrap();
    assert_eq!(plan.column.steps, 240);
    assert!(plan.column.direction);
    assert_eq!(plan.column.pulses, Driver::move_motor(240, true, 20));
    assert_eq!(plan.beam.steps, -240);
    assert!(!plan.beam.direction);
    assert_eq!(plan.beam.pulses, Driver::move_motor(-240, false, 20));
    assert!(plan.base.is_none());
    let snapped = AngleSet { column_angle: 60_000_000, beam_angle: -60_000_000, base_angle: 0 };
    assert_eq!(plan.angles, snapped);
    assert_eq!(driver.in_flight, Some(snapped));
    assert_eq!(driver.column_angle, 0);
    assert_eq!(driver.beam_angle, 0);
    assert_eq!(driver.current_position, Point { x: 2_000_000, y: 0, z: 0 });
}

#[test]
fn commit_takes_the_snapped_angles_and_the_position() {
    let mut driver = Driver::new();
    let angles = AngleSet { column_angle: 60_100_000, beam_angle: -59_900_000, base_angle: 0 };
    driver.goto_point(1_000_000, 0, angles).unwrap();
    driver.commit(Point { x: 1_000_000, y: 0, z: 0 });
    assert_eq!(driver.column_angle, 60_000_000);
    assert_eq!(driver.beam_angle, -60_000_000);
    assert_eq!(driver.base_angle, 0);
    assert_eq!(driver.current_position, Point { x: 1_000_000, y: 0, z: 0 });
    assert_eq!(driver.in_flight, None);
    assert_eq!(driver.step_degree, 250_000);
}

#[test]
fn a_second_move_counts_from_the_committed_angles() {
    let mut driver = Driver::new();
    let first = AngleSet { column_angle: 60_000_000, beam_angle: -60_000_000, base_angle: 0 };
    driver.goto_point(1_000_000, 0, first).unwrap();
    driver.commit(Point { x: 1_000_000, y: 0, z: 0 });
    let second = AngleSet { column_angle: 90_000_000, beam_angle: 0, base_angle: 0 };
    let plan = driver.goto_point(1_000_000, 1_000_000, second).unwrap();
    assert_eq!(plan.column.steps, 120);
    assert!(plan.column.direction);
    assert_eq!(plan.beam.steps, 0);
    assert!(plan.beam.direction);
    assert!(plan.beam.pulses.is_empty());
}

#[test]
fn reachability_boundary_of_goto() {
    let mut driver = Driver::new();
    let angles = AngleSet { column_angle: 0, beam_angle: 0, base_angle: 0 };
    assert!(driver.goto_point(2_000_000, 0, angles).is_ok());
    driver.commit(Point { x: 2_000_000, y: 0, z: 0 });
    let before = driver;
    let res = driver.goto_point(2_000_100, 0, angles);
    assert!(matches!(res, Err(DriverError::UnReachable)));
    assert_eq!(driver, before);
}

#[test]
fn unreachable_target_leaves_every_kind_of_move_untouched() {
    let mut driver = Driver::new();
    let before = driver;
    let angles = AngleSet { column_angle: 30_000_000, beam_angle: 30_000_000, base_angle: 0 };
    assert!(matches!(driver.goto_point(0, 2_000_001, angles), Err(DriverError::UnReachable)));
    assert!(matches!(
        driver.goto_point_smooth(0, 2_000_001, angles),
        Err(DriverError::UnReachable)
    ));
    assert!(matches!(
        driver.goto_point_3d(0, 2_000_000, 1, angles),
        Err(DriverError::UnReachable)
    ));
    assert_eq!(driver, before);
}

#[test]
fn smooth_goto_eases_both_joints() {
    let mut driver = Driver::new();
    let angles = AngleSet { column_angle: 1_750_000, beam_angle: -750_000, base_angle: 0 };
    let plan = driver.goto_point_smooth(1_999_000, 0, angles).unwrap();
    assert_eq!(plan.column.steps, 7);
    assert_eq!(
        plan.column.pulses,
        Driver::move_motor_smooth(vec![4000, 1750, 1750, 1750, 1750, 1750, 4000], true)
    );
    assert_eq!(plan.beam.steps, -3);
    assert_eq!(plan.beam.pulses, Driver::move_motor_smooth(vec![1750, 1750, 1750], false));
    assert!(plan.base.is_none());
    assert_eq!(
        driver.in_flight,
        Some(AngleSet { column_angle: 1_750_000, beam_angle: -750_000, base_angle: 0 })
    );
}

#[test]
fn smooth_goto_of_one_and_two_steps_waits_inside_the_window() {
    let mut driver = Driver::new();
    let angles = AngleSet { column_angle: 250_000, beam_angle: 500_000, base_angle: 0 };
    let plan = driver.goto_point_smooth(2_000_000, 0, angles).unwrap();
    assert_eq!(plan.column.steps, 1);
    assert_eq!(
        plan.column.pulses,
        vec![Pulse::Step(true), Pulse::Wait(1750), Pulse::Reset, Pulse::Wait(10)]
    );
    assert_eq!(plan.beam.steps, 2);
    assert_eq!(plan.beam.pulses, Driver::move_motor_smooth(vec![1750, 1750], true));
    for pulse in plan.column.pulses.iter().chain(plan.beam.pulses.iter()) {
        if let Pulse::Wait(delay) = pulse {
            assert!(*delay == 10 || (1750 <= *delay && *delay <= 4000));
        }
    }
}

#[test]
fn smooth_goto_with_a_still_beam_is_rejected_whole() {
    let mut driver = Driver::new();
    let before = driver;
    let angles = AngleSet { column_angle: 30_000_000, beam_angle: 100_000, base_angle: 0 };
    assert_eq!(driver.get_steps_2d(30_000_000, 100_000), (120, 0, 30_000_000, 0));
    let res = driver.goto_point_smooth(1_000_000, 0, angles);
    assert!(matches!(res, Err(DriverError::CantNormalize)));
    assert_eq!(driver, before);
    assert_eq!(driver.in_flight, None);
}

#[test]
fn smooth_goto_with_a_still_column_is_rejected_whole() {
    let mut driver = Driver::new();
    let before = driver;
    let angles = AngleSet { column_angle: 100_000, beam_angle: 30_000_000, base_angle: 0 };
    let res = driver.goto_point_smooth(1_000_000, 0, angles);
    assert!(matches!(res, Err(DriverError::CantNormalize)));
    assert_eq!(driver, before);
}

#[test]
fn controller_serves_again_after_a_rejection() {
    let mut driver = Driver::new();
    let still = AngleSet { column_angle: 0, beam_angle: 0, base_angle: 0 };
    assert!(driver.goto_point_smooth(1_000_000, 0, still).is_err());
    assert!(driver.goto_point(3_000_000, 0, still).is_err());
    let angles = AngleSet { column_angle: 60_000_000, beam_angle: -60_000_000, base_angle: 0 };
    let plan = driver.goto_point_smooth(1_000_000, 0, angles).unwrap();
    assert_eq!(steps_in(&plan.column.pulses), 240);
    assert_eq!(steps_in(&plan.beam.pulses), 240);
}

#[test]
fn goto_in_space_moves_the_base_too() {
    let mut driver = Driver::new();
    let angles =
        AngleSet { column_angle: 60_000_000, beam_angle: -60_000_000, base_angle: -45_100_000 };
    let plan = driver.goto_point_3d(700_000, 0, 700_000, angles).unwrap();
    assert_eq!(plan.column.steps, 240);
    assert_eq!(plan.beam.steps, -240);
    let base = plan.base.unwrap();
    assert_eq!(base.steps, -180);
    assert!(!base.direction);
    assert_eq!(base.pulses, Driver::move_motor(-180, false, 0));
    driver.commit(Point { x: 700_000, y: 0, z: 700_000 });
    assert_eq!(driver.base_angle, -45_000_000);
    assert_eq!(driver.current_position, Point { x: 700_000, y: 0, z: 700_000 });
}

#[test]
fn reach_in_space_is_measured_from_the_origin() {
    let mut driver = Driver::new();
    let angles = AngleSet { column_angle: 0, beam_angle: 0, base_angle: 0 };
    assert!(driver.goto_point_3d(0, 0, 2_000_000, angles).is_ok());
    driver.commit(Point { x: 0, y: 0, z: 2_000_000 });
    assert!(matches!(
        driver.goto_point_3d(0, 0, 2_000_001, angles),
        Err(DriverError::UnReachable)
    ));
    assert!(driver.goto_point_3d(1_154_700, 1_154_700, 1_154_700, angles).is_ok());
}

#[test]
fn jog_moves_one_amount_along_an_axis() {
    let mut driver = Driver::new();
    driver.current_position = Point { x: 1_500_000, y: 200_000, z: 0 };
    assert_eq!(driver.move_direction(Direction::Left), (1_490_000, 200_000));
    assert_eq!(driver.move_direction(Direction::Right), (1_510_000, 200_000));
    assert_eq!(driver.move_direction(Direction::Up), (1_500_000, 210_000));
    assert_eq!(driver.move_direction(Direction::Down), (1_500_000, 190_000));
}

#[test]
fn jog_stops_at_the_ends_of_the_range() {
    let mut driver = Driver::new();
    driver.current_position = Point { x: i64::MAX - 5, y: i64::MIN + 5, z: 0 };
    assert_eq!(driver.move_direction(Direction::Right), (i64::MAX, i64::MIN + 5));
    assert_eq!(driver.move_direction(Direction::Down), (i64::MAX - 5, i64::MIN));
    driver.movement_amount = i64::MIN;
    assert_eq!(driver.move_direction(Direction::Left), (i64::MAX, i64::MIN + 5));
    assert_eq!(driver.move_direction(Direction::Up), (i64::MAX - 5, i64::MIN));
}

#[test]
fn solved_angles_come_back_to_the_target() {
    let angles = solve(1.0, 0.0);
    let mut driver = Driver::new();
    let plan = driver.goto_point(1_000_000, 0, angles).unwrap();
    let tip = forward(plan.angles.column_angle, plan.angles.beam_angle);
    driver.commit(Point { x: to_units(tip.0), y: to_units(tip.1), z: 0 });
    let half_step = 0.125;
    assert!((tip.0 - 1.0).abs() <= half_step);
    assert!((tip.1 - 0.0).abs() <= half_step);
    assert!(((tip.0 - 1.0).powi(2) + tip.1.powi(2)).sqrt() <= 0.005);
    assert_eq!(plan.angles.column_angle, 60_000_000);
    assert_eq!(plan.angles.beam_angle, -60_000_000);
}

#[test]
fn committed_position_is_the_image_of_the_snapped_angles() {
    let target = (1.2, 0.3);
    let angles = solve(target.0, target.1);
    let mut driver = Driver::new();
    let plan = driver.goto_point(to_units(target.0), to_units(target.1), angles).unwrap();
    assert_eq!(plan.angles.column_angle % 250_000, 0);
    assert_eq!(plan.angles.beam_angle % 250_000, 0);
    assert_ne!(plan.angles.column_angle, angles.column_angle);
    let tip = forward(plan.angles.column_angle, plan.angles.beam_angle);
    let position = Point { x: to_units(tip.0), y: to_units(tip.1), z: 0 };
    driver.commit(position);
    assert_eq!(driver.current_position, position);
    assert_ne!(driver.current_position, Point { x: 1_200_000, y: 300_000, z: 0 });
    assert_eq!(driver.column_angle, plan.angles.column_angle);
    assert_eq!(driver.beam_angle, plan.angles.beam_angle);
    assert!((tip.0 - target.0).abs() <= 0.005 && (tip.1 - target.1).abs() <= 0.005);
}

#[test]
fn random_angles_stay_in_the_turn() {
    let mut seen_other = false;
    for _ in 0..64 {
        let angle = Driver::get_random_angle();
        assert!(-180_000_000 <= angle && angle < 180_000_000);
        if angle != -180_000_000 && angle != 180_000_000 {
            seen_other = true;
        }
    }
    assert!(seen_other);
}
