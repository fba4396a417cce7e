use stepper_arm::driver::pulse::Pulse;
use stepper_arm::driver::Driver;
use stepper_arm::motor::Motor;

fn waited(train: &[Pulse]) -> i64 {
    train
        .iter()
        .map(|p| match p {
            Pulse::Wait(d) => *d,
            _ => 0,
        })
        .sum()
}

fn stepped(train: &[Pulse]) -> usize {
    train.iter().filter(|p| matches!(p, Pulse::Step(_))).count()
}

#[test]
fn constant_train_pulses_and_waits_in_turn() {
    let train = Driver::move_motor(2, true, 500);
    assert_eq!(
        train,
        vec![
            Pulse::Step(true),
            Pulse::Wait(500),
            Pulse::Reset,
            Pulse::Wait(500),
            Pulse::Step(true),
            Pulse::Wait(500),
            Pulse::Reset,
            Pulse::Wait(500),
        ]
    );
}

#[test]
fn constant_train_counts_the_magnitude_of_the_steps() {
    let train = Driver::move_motor(-3, false, 9);
    assert_eq!(train.len(), 12);
    assert_eq!(stepped(&train), 3);
    assert!(train.iter().all(|p| *p != Pulse::Step(true)));
    assert_eq!(Driver::move_motor(0, true, 9), Vec::<Pulse>::new());
}

#[test]
fn profile_train_waits_by_the_schedule_and_settles() {
    let train = Driver::move_motor_smooth(vec![4000, 1750], false);
    assert_eq!(
        train,
        vec![
            Pulse::Step(false),
            Pulse::Wait(4000),
            Pulse::Reset,
            Pulse::Wait(10),
            Pulse::Step(false),
            Pulse::Wait(1750),
            Pulse::Reset,
            Pulse::Wait(10),
        ]
    );
    assert_eq!(Driver::move_motor_smooth(Vec::new(), true), Vec::<Pulse>::new());
}

#[test]
fn the_longer_joint_sets_the_time_of_a_move() {
    let delay: i64 = 250;
    let column = Driver::move_motor(100, true, delay);
    let beam = Driver::move_motor(300, true, delay);
    assert_eq!(stepped(&column), 100);
    assert_eq!(stepped(&beam), 300);
    assert_eq!(waited(&column), 100 * 2 * delay);
    assert_eq!(waited(&beam), 300 * 2 * delay);
    assert_eq!(waited(&column).max(waited(&beam)), 300 * 2 * delay);
}

#[test]
fn profile_train_waits_for_the_schedule_and_the_settling() {
    let delays = Driver::eased_delays(100, 1750, 4000).unwrap();
    let sum: i64 = delays.iter().sum();
    let train = Driver::move_motor_smooth(delays, true);
    assert_eq!(train.len(), 400);
    assert_eq!(stepped(&train), 100);
    assert_eq!(waited(&train), sum + 100 * 10);
}

#[test]
fn motor_new_keeps_its_pins() {
    let motor = Motor::new(250_000, 3, 4);
    assert_eq!(motor, Motor { step_degree: 250_000, dir: 3, step: 4 });
}

#[test]
fn motor_steps_with_the_direction_line_turned_round() {
    let motor = Motor::new(250_000, 0, 0);
    assert_eq!(
        motor.move_steps(2, 300),
        vec![
            Pulse::Step(false),
            Pulse::Wait(300),
            Pulse::Reset,
            Pulse::Wait(10),
            Pulse::Step(false),
            Pulse::Wait(300),
            Pulse::Reset,
            Pulse::Wait(10),
        ]
    );
    assert_eq!(
        motor.move_steps(-1, 300),
        vec![Pulse::Step(true), Pulse::Wait(300), Pulse::Reset, Pulse::Wait(10)]
    );
    assert_eq!(motor.move_steps(0, 300), Vec::<Pulse>::new());
}

#[test]
fn motor_turns_by_snapped_degrees() {
    let motor = Motor::new(250_000, 0, 0);
    let train = motor.move_degree(1_100_000, 300);
    assert_eq!(stepped(&train), 4);
    assert_eq!(train[0], Pulse::Step(false));
    let back = motor.move_degree(-1_130_000, 300);
    assert_eq!(stepped(&back), 5);
    assert_eq!(back[0], Pulse::Step(true));
    assert_eq!(motor.move_degree(100_000, 300), Vec::<Pulse>::new());
}

#[test]
fn motor_eases_a_turn() {
    let motor = Motor::new(250_000, 0, 0);
    let train = motor.move_smooth(1_750_000, 4000, 1750);
    assert_eq!(stepped(&train), 7);
    let waits: Vec<i64> = train
        .iter()
        .skip(1)
        .step_by(4)
        .map(|p| match p {
            Pulse::Wait(d) => *d,
            _ => -1,
        })
        .collect();
    assert_eq!(waits, vec![4000, 1750, 1750, 1750, 1750, 1750, 4000]);
    assert!(train.iter().step_by(4).all(|p| *p == Pulse::Step(false)));
    let back = motor.move_smooth(-750_000, 4000, 1750);
    assert_eq!(stepped(&back), 3);
    assert_eq!(back[0], Pulse::Step(true));
    assert_eq!(back, Driver::move_motor_smooth(vec![1750, 1750, 1750], true));
}

#[test]
fn motor_has_no_eased_train_for_no_step() {
    let motor = Motor::new(250_000, 0, 0);
    assert_eq!(motor.move_smooth(100_000, 4000, 1750), Vec::<Pulse>::new());
    assert_eq!(motor.move_smooth(0, 4000, 1750), Vec::<Pulse>::new());
}
