use stepper_arm::console::{App, Command, Event, Key, Mode};
use stepper_arm::driver::{Direction, Driver, DriverError};
use stepper_arm::utils::AngleSet;

fn press(app: &mut App, key: Key) -> Command {
    app.handle_input(Event::Input(key))
}

fn in_control() -> App {
    let mut app = App::new();
    press(&mut app, Key::Char('c'));
    app
}

const REST: AngleSet = AngleSet { column_angle: 0, beam_angle: 0, base_angle: 0 };

#[test]
fn new_front_end_is_in_normal_mode() {
    let app = App::new();
    assert_eq!(app.current_mode, Mode::Normal);
    assert_eq!(app.buffer, "");
    assert_eq!(app.prev_positions_size, 10);
    assert_eq!(app.command_output_size, 10);
    assert_eq!(app.prev_positions.get_items(), &vec![REST; 10]);
    assert_eq!(app.command_output.get_items(), &vec![String::new(); 10]);
    assert_eq!(app.driver, Driver::new());
    assert_eq!(app.get_current_mode_string(), "Normal");
}

#[test]
fn tick_changes_nothing() {
    let mut app = in_control();
    let before = app.driver;
    assert_eq!(app.handle_input(Event::Tick), Command::Idle);
    assert_eq!(app.current_mode, Mode::Control);
    assert_eq!(app.driver, before);
}

#[test]
fn keys_change_the_mode() {
    let mut app = App::new();
    assert_eq!(press(&mut app, Key::Char('c')), Command::Idle);
    assert_eq!(app.current_mode, Mode::Control);
    assert_eq!(app.get_current_mode_string(), "Control");
    press(&mut app, Key::Char(':'));
    assert_eq!(app.current_mode, Mode::Control);
    press(&mut app, Key::Esc);
    assert_eq!(app.current_mode, Mode::Normal);
    press(&mut app, Key::Char(':'));
    assert_eq!(app.current_mode, Mode::Buffer);
    assert_eq!(app.get_current_mode_string(), "Buffer");
    press(&mut app, Key::Enter);
    assert_eq!(app.current_mode, Mode::Normal);
    press(&mut app, Key::Esc);
    assert_eq!(app.current_mode, Mode::Normal);
}

#[test]
fn buffer_mode_edits_the_text() {
    let mut app = App::new();
    press(&mut app, Key::Char(':'));
    for c in "1.0 0.5".chars() {
        assert_eq!(press(&mut app, Key::Char(c)), Command::Idle);
    }
    assert_eq!(app.buffer, "1.0 0.5");
    press(&mut app, Key::Backspace);
    assert_eq!(app.buffer, "1.0 0.");
    press(&mut app, Key::Left);
    assert_eq!(app.buffer, "1.0 0.");
    press(&mut app, Key::Char('c'));
    assert_eq!(app.buffer, "1.0 0.c");
    assert_eq!(app.current_mode, Mode::Buffer);
    press(&mut app, Key::Delete);
    assert_eq!(app.buffer, "");
    press(&mut app, Key::Backspace);
    assert_eq!(app.buffer, "");
    press(&mut app, Key::Char('7'));
    press(&mut app, Key::Esc);
    assert_eq!(app.buffer, "7");
    press(&mut app, Key::Char('x'));
    assert_eq!(app.buffer, "7");
}

#[test]
fn normal_mode_leaves_session_work_to_the_caller() {
    let mut app = App::new();
    assert_eq!(press(&mut app, Key::Char('q')), Command::Quit);
    assert_eq!(press(&mut app, Key::Char('d')), Command::Dump);
    assert_eq!(press(&mut app, Key::Char('a')), Command::RandomPoint);
    assert_eq!(press(&mut app, Key::Char('s')), Command::Save);
    assert_eq!(press(&mut app, Key::Enter), Command::Idle);
    assert_eq!(press(&mut app, Key::Left), Command::Idle);
    assert_eq!(press(&mut app, Key::Other), Command::Idle);
    assert_eq!(app.current_mode, Mode::Normal);
}

#[test]
fn control_mode_leaves_moves_to_the_caller() {
    let mut app = in_control();
    assert_eq!(press(&mut app, Key::Left), Command::Jog(Direction::Left));
    assert_eq!(press(&mut app, Key::Right), Command::Jog(Direction::Right));
    assert_eq!(press(&mut app, Key::Up), Command::Jog(Direction::Up));
    assert_eq!(press(&mut app, Key::Down), Command::Jog(Direction::Down));
    assert_eq!(press(&mut app, Key::Enter), Command::Goto);
    assert_eq!(press(&mut app, Key::Char('\\')), Command::GotoSmooth);
    assert_eq!(press(&mut app, Key::Char('q')), Command::Idle);
    assert_eq!(app.driver, Driver::new());
}

#[test]
fn control_mode_tunes_the_delays() {
    let mut app = in_control();
    press(&mut app, Key::Char(']'));
    assert_eq!(app.driver.micro_delay_max, 4010);
    press(&mut app, Key::Char('['));
    press(&mut app, Key::Char('['));
    assert_eq!(app.driver.micro_delay_max, 3990);
    press(&mut app, Key::Char('\''));
    assert_eq!(app.driver.micro_delay_min, 1760);
    press(&mut app, Key::Char(';'));
    press(&mut app, Key::Char(';'));
    assert_eq!(app.driver.micro_delay_min, 1740);
    press(&mut app, Key::Char('.'));
    press(&mut app, Key::Char('.'));
    assert_eq!(app.driver.micro_delay_default, 20);
    press(&mut app, Key::Char(','));
    assert_eq!(app.driver.micro_delay_default, 10);
    press(&mut app, Key::Char(','));
    assert_eq!(app.driver.micro_delay_default, 10);
}

#[test]
fn control_mode_tunes_the_jog() {
    let mut app = in_control();
    press(&mut app, Key::Char('='));
    assert_eq!(app.driver.movement_amount, 12_500);
    press(&mut app, Key::Char('-'));
    assert_eq!(app.driver.movement_amount, 10_000);
    press(&mut app, Key::Char('-'));
    assert_eq!(app.driver.movement_amount, 8_000);
}

#[test]
fn jog_amount_stops_at_the_ends_of_the_range() {
    let mut app = App::new();
    app.driver.movement_amount = i64::MAX;
    app.increase_movement_amount();
    assert_eq!(app.driver.movement_amount, i64::MAX);
    app.driver.movement_amount = i64::MIN;
    app.increase_movement_amount();
    assert_eq!(app.driver.movement_amount, i64::MIN);
    app.driver.movement_amount = -7;
    app.decrease_movement_amount();
    assert_eq!(app.driver.movement_amount, -5);
    app.increase_movement_amount();
    assert_eq!(app.driver.movement_amount, -6);
}

#[test]
fn delay_window_stays_in_order() {
    let mut app = App::new();
    app.driver.micro_delay_min = 100;
    app.driver.micro_delay_max = 110;
    app.increase_min_delay();
    assert_eq!(app.driver.micro_delay_min, 100);
    app.decrease_max_delay();
    assert_eq!(app.driver.micro_delay_max, 110);
    app.driver.micro_delay_max = 111;
    app.decrease_max_delay();
    assert_eq!(app.driver.micro_delay_max, 101);
    app.driver.micro_delay_max = 111;
    app.increase_min_delay();
    assert_eq!(app.driver.micro_delay_min, 110);
    app.decrease_max_delay();
    assert_eq!(app.driver.micro_delay_max, 111);
    app.driver.micro_delay_min = 0;
    app.driver.micro_delay_max = 10;
    app.decrease_max_delay();
    assert_eq!(app.driver.micro_delay_max, 10);
    app.decrease_min_delay();
    assert_eq!(app.driver.micro_delay_min, 0);
    app.driver.micro_delay_min = 11;
    app.driver.micro_delay_max = 50;
    app.decrease_min_delay();
    assert_eq!(app.driver.micro_delay_min, 1);
}

#[test]
fn delays_stop_at_the_end_of_the_range() {
    let mut app = App::new();
    app.driver.micro_delay_max = i64::MAX - 3;
    app.increase_max_delay();
    assert_eq!(app.driver.micro_delay_max, i64::MAX);
    app.driver.micro_delay_default = i64::MAX;
    app.increase_delay();
    assert_eq!(app.driver.micro_delay_default, i64::MAX);
    app.driver.micro_delay_min = i64::MIN;
    app.decrease_max_delay();
    assert_eq!(app.driver.micro_delay_max, i64::MAX - 10);
    app.driver.micro_delay_max = i64::MIN;
    app.increase_min_delay();
    assert_eq!(app.driver.micro_delay_min, i64::MIN);
}

#[test]
fn normal_mode_resizes_the_histories() {
    let mut app = App::new();
    press(&mut app, Key::Char('='));
    assert_eq!(app.prev_positions_size, 11);
    assert_eq!(app.prev_positions.get_items().len(), 11);
    press(&mut app, Key::Char('-'));
    press(&mut app, Key::Char('-'));
    assert_eq!(app.prev_positions_size, 9);
    assert_eq!(app.prev_positions.get_items().len(), 9);
    press(&mut app, Key::Char(']'));
    assert_eq!(app.command_output_size, 11);
    press(&mut app, Key::Char('['));
    press(&mut app, Key::Char('['));
    assert_eq!(app.command_output_size, 9);
    assert_eq!(app.command_output.get_items().len(), 9);
    for _ in 0..20 {
        press(&mut app, Key::Char('['));
        press(&mut app, Key::Char('-'));
    }
    assert_eq!(app.command_output_size, 1);
    assert_eq!(app.prev_positions_size, 1);
    assert_eq!(app.command_output.get_items().len(), 1);
    assert_eq!(app.prev_positions.get_items().len(), 1);
}

#[test]
fn histories_take_positions_and_lines() {
    let mut app = App::new();
    app.driver.column_angle = 60_000_000;
    app.driver.beam_angle = -60_000_000;
    app.driver.base_angle = 5_000_000;
    let pose = AngleSet { column_angle: 60_000_000, beam_angle: -60_000_000, base_angle: 0 };
    assert_eq!(app.get_current_position(), pose);
    assert_eq!(app.get_current_angle_set(), pose);
    app.add_current_position();
    assert_eq!(app.prev_positions.get_items()[9], pose);
    assert_eq!(app.prev_positions.get_items()[8], REST);
    app.handle_driver_error_generic(DriverError::UnReachable);
    app.handle_driver_error_generic(DriverError::CantNormalize);
    assert_eq!(
        app.command_output.get_items()[8],
        "unable to reach target position, out of range"
    );
    assert_eq!(
        app.command_output.get_items()[9],
        "unable to normalize derived smooth, most likely a divide by zero issue"
    );
    assert_eq!(app.command_output.get_items()[7], "");
    press(&mut app, Key::Char('p'));
    assert_eq!(app.prev_positions.get_items(), &vec![REST; 10]);
    assert_eq!(app.command_output.get_items()[9].len(), 70);
    press(&mut app, Key::Char('f'));
    assert_eq!(app.command_output.get_items(), &vec![String::new(); 10]);
}

#[test]
fn getters_read_the_controller() {
    let mut app = App::new();
    assert_eq!((app.get_current_x(), app.get_current_y(), app.get_current_z()), (2_000_000, 0, 0));
    app.driver.column_angle = 1;
    app.driver.beam_angle = 2;
    app.driver.base_angle = 3;
    app.driver.current_position.z = -4;
    assert_eq!(app.get_current_column_angle(), 1);
    assert_eq!(app.get_current_beam_angle(), 2);
    assert_eq!(app.get_current_base_angle(), 3);
    assert_eq!(app.get_x_z_points(), vec![(0, 0), (2_000_000, -4)]);
}

#[test]
fn random_points_stay_in_their_ranges() {
    let mut moved = false;
    for _ in 0..64 {
        let point = App::gen_random_point();
        assert!(100_000 <= point.column_angle && point.column_angle < 2_000_000);
        assert!(-1_000_000 <= point.beam_angle && point.beam_angle < 2_000_000);
        assert_eq!(point.base_angle, 0);
        if point.column_angle != 100_000 && point.beam_angle != -1_000_000 {
            moved = true;
        }
    }
    assert!(moved);
}

#[test]
fn shifting_vec_size_can_be_set_from_the_front_end() {
    let mut app = App::new();
    App::set_shifting_vec_size(3, &mut app.prev_positions);
    assert_eq!(app.prev_positions.get_items().len(), 3);
}
