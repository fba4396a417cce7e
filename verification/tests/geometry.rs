use stepper_arm::calc::Calc;
use stepper_arm::utils::Point;

#[test]
fn new_places_the_origin_in_the_plane() {
    let calc = Calc::new(3, -4, 1_000_000);
    assert_eq!(calc.origin, Point { x: 3, y: -4, z: 0 });
    assert_eq!(calc.radius, 1_000_000);
}

#[test]
fn target_at_twice_the_radius_is_reachable() {
    let calc = Calc::new(0, 0, 1_000_000);
    assert!(calc.reaches(2_000_000, 0));
    assert!(calc.reaches(0, -2_000_000));
    assert!(calc.reaches(0, 0));
}

#[test]
fn target_just_beyond_twice_the_radius_is_unreachable() {
    let calc = Calc::new(0, 0, 1_000_000);
    assert!(!calc.reaches(2_000_100, 0));
    assert!(!calc.reaches(2_000_001, 0));
    assert!(!calc.reaches(2_000_000, 1));
}

#[test]
fn reach_is_measured_from_the_origin() {
    let calc = Calc::new(5_000_000, 5_000_000, 1_000_000);
    assert!(calc.reaches(5_000_000, 7_000_000));
    assert!(!calc.reaches(0, 0));
}

#[test]
fn reach_on_the_diagonal_is_exact() {
    let calc = Calc::new(0, 0, 5);
    assert!(calc.reaches(6, 8));
    assert!(!calc.reaches(6, 9));
    assert!(!calc.reaches(7, 8));
}

#[test]
fn negative_radius_reaches_nothing() {
    let calc = Calc::new(0, 0, -1);
    assert!(!calc.reaches(0, 0));
    assert!(!calc.reaches_3d(0, 0, 0));
}

#[test]
fn reach_takes_the_widest_coordinates() {
    let calc = Calc::new(i64::MIN, i64::MIN, i64::MAX);
    assert!(calc.reaches(i64::MAX - 1, i64::MIN));
    assert!(!calc.reaches(i64::MAX, i64::MIN));
    assert!(!calc.reaches(i64::MAX, i64::MAX));
    let small = Calc::new(i64::MAX, 0, 1);
    assert!(!small.reaches(i64::MIN, 0));
    assert!(small.reaches(i64::MAX - 2, 0));
}

#[test]
fn reach_in_space_counts_all_three_axes() {
    let calc = Calc::new(0, 0, 3);
    assert!(calc.reaches_3d(2, 4, 4));
    assert!(!calc.reaches_3d(2, 4, 5));
    assert!(calc.reaches_3d(0, 0, 6));
    assert!(!calc.reaches_3d(0, 0, -7));
}

#[test]
fn dist_cuts_the_fraction_off() {
    assert_eq!(Calc::dist(0, 0, 3, 4), 5);
    assert_eq!(Calc::dist(0, 0, 1_000_000, 1_000_000), 1_414_213);
    assert_eq!(Calc::dist(1, 1, 2, 2), 1);
    assert_eq!(Calc::dist(7, -3, 7, -3), 0);
    assert_eq!(Calc::dist(-3, -4, 0, 0), 5);
}

#[test]
fn dist_of_the_reach_boundary() {
    assert_eq!(Calc::dist(0, 0, 2_000_000, 0), 2_000_000);
    assert_eq!(Calc::dist(0, 0, 2_000_100, 0), 2_000_100);
}

#[test]
fn dist_at_the_coordinate_limit() {
    let limit: i64 = 0x2000_0000_0000_0000;
    assert_eq!(Calc::dist(-limit, 0, limit, 0), 2 * limit);
    assert_eq!(Calc::dist(-limit, -limit, limit, limit), 6_521_908_912_666_391_106);
}

#[test]
fn dist_3d_cuts_the_fraction_off() {
    let a = Point { x: 0, y: 0, z: 0 };
    let b = Point { x: 1, y: 2, z: 2 };
    assert_eq!(Calc::dist_3d(&a, &b), 3);
    let c = Point { x: 1_000_000, y: 1_000_000, z: 1_000_000 };
    assert_eq!(Calc::dist_3d(&a, &c), 1_732_050);
    assert_eq!(Calc::dist_3d(&c, &a), 1_732_050);
}
