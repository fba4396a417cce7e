use stepper_arm::history::ShiftingVec;
use stepper_arm::utils::Utils;

#[test]
fn initalize_fills_every_place() {
    let history = ShiftingVec::initalize(3, 7);
    assert_eq!(history.get_items(), &vec![7, 7, 7]);
    let empty = ShiftingVec::<u8>::initalize(0, 1);
    assert!(empty.get_items().is_empty());
}

#[test]
fn insert_shifts_the_oldest_out() {
    let mut history = ShiftingVec::initalize(3, 0);
    history.insert(1);
    assert_eq!(history.get_items(), &vec![0, 0, 1]);
    history.insert(2);
    history.insert(3);
    assert_eq!(history.get_items(), &vec![1, 2, 3]);
    history.insert(4);
    assert_eq!(history.get_items(), &vec![2, 3, 4]);
}

#[test]
fn insert_into_a_single_place() {
    let mut history = ShiftingVec::initalize(1, String::new());
    history.insert(String::from("a"));
    history.insert(String::from("b"));
    assert_eq!(history.get_items(), &vec![String::from("b")]);
}

#[test]
fn growing_puts_fillers_in_front() {
    let mut history = ShiftingVec::initalize(2, 0);
    history.insert(1);
    history.insert(2);
    history.set_size(4);
    assert_eq!(history.get_items(), &vec![0, 0, 1, 2]);
    history.insert(3);
    assert_eq!(history.get_items(), &vec![0, 1, 2, 3]);
}

#[test]
fn shrinking_keeps_the_newest() {
    let mut history = ShiftingVec::initalize(4, 0);
    for item in 1..=4 {
        history.insert(item);
    }
    history.set_size(2);
    assert_eq!(history.get_items(), &vec![3, 4]);
    history.set_size(2);
    assert_eq!(history.get_items(), &vec![3, 4]);
    history.set_size(0);
    assert!(history.get_items().is_empty());
    history.set_size(1);
    assert_eq!(history.get_items(), &vec![0]);
}

#[test]
fn flush_brings_the_fillers_back() {
    let mut history = ShiftingVec::initalize(3, 9);
    history.insert(1);
    history.insert(2);
    history.flush();
    assert_eq!(history.get_items(), &vec![9, 9, 9]);
}

#[test]
fn set_all_fills_with_the_item() {
    let mut history = ShiftingVec::initalize(3, 9);
    history.set_all(5);
    assert_eq!(history.get_items(), &vec![5, 5, 5]);
    history.flush();
    assert_eq!(history.get_items(), &vec![9, 9, 9]);
}

#[test]
fn state_starts_without_a_selection_and_can_be_changed() {
    let mut history = ShiftingVec::initalize(3, 9);
    assert_eq!(history.get_state().selected(), None);
    history.get_state().select(Some(2));
    assert_eq!(history.get_state().selected(), Some(2));
    assert_eq!(history.get_items(), &vec![9, 9, 9]);
}

#[test]
fn saved_message_names_the_path() {
    assert_eq!(Utils::saved_message("./output"), "successfully saved to ./output");
    assert_eq!(Utils::saved_message(""), "successfully saved to ");
}
