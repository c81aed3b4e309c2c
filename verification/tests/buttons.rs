use rust_try_lib::inputs::buttons::{ButtonState, Buttons};

#[test]
fn new_table_is_all_released_and_quiet() {
    let b = Buttons::new(3);
    for i in 0..3 {
        assert!(b.is_released(i));
        assert!(!b.is_pressed(i));
        assert!(!b.is_signaled(i));
        assert!(!b.is_just_pressed(i));
        assert!(!b.is_just_released(i));
    }
    // Unknown buttons read as false for every query.
    assert!(!b.is_released(3));
    assert!(!b.is_signaled(100));
}

#[test]
fn input_sets_state_and_signal() {
    let mut b = Buttons::new(3);
    b.handle_input(1, ButtonState::Pressed);
    assert!(b.is_pressed(1));
    assert!(b.is_signaled(1));
    assert!(b.is_just_pressed(1));
    assert!(!b.is_pressed(0));
    assert!(!b.is_signaled(0));
}

#[test]
fn input_past_the_end_grows_the_table() {
    let mut b = Buttons::new(2);
    assert!(!b.is_pressed(5));
    b.handle_input(5, ButtonState::Pressed);
    assert!(b.is_pressed(5));
    assert!(b.is_released(4));
    assert!(!b.is_signaled(4));
    assert!(!b.is_pressed(6));
}

#[test]
fn frame_boundary_settles_changes() {
    let mut b = Buttons::new(4);
    b.handle_input(2, ButtonState::Pressed);
    b.pre_update();
    assert!(b.is_pressed(2));
    assert!(!b.is_just_pressed(2));
    assert!(!b.is_signaled(2));
    b.handle_input(2, ButtonState::Released);
    assert!(b.is_just_released(2));
    assert!(b.is_released(2));
}

#[test]
fn later_input_in_a_frame_wins() {
    let mut b = Buttons::new(4);
    b.handle_input(0, ButtonState::Pressed);
    b.handle_input(0, ButtonState::Released);
    assert!(b.is_released(0));
    assert!(!b.is_just_released(0));
    assert!(b.is_signaled(0));
}

#[test]
fn group_queries_need_a_known_last_index() {
    let mut b = Buttons::new(4);
    b.handle_input(0, ButtonState::Pressed);
    b.handle_input(1, ButtonState::Pressed);
    assert!(b.are_pressed(&[0, 1]));
    assert!(!b.are_pressed(&[0, 2]));
    assert!(!b.are_pressed(&[]));
    assert!(b.are_signaled(&[1, 0]));
    assert!(b.are_just_pressed(&[0, 1]));
    assert!(!b.are_just_released(&[0, 1]));
    assert!(b.are_released(&[2, 3]));
    // The last index must be a known button.
    assert!(!b.are_released(&[2, 9]));
    b.pre_update();
    b.handle_input(0, ButtonState::Released);
    b.handle_input(1, ButtonState::Released);
    assert!(b.are_just_released(&[0, 1]));
    assert!(!b.are_signaled(&[0, 1, 2]));
}

#[test]
fn resize_keeps_the_known_size() {
    let mut b = Buttons::new(2);
    b.handle_input(1, ButtonState::Pressed);
    b.resize(8);
    // Known size is still 2: button 5 reads as unknown.
    assert!(!b.is_released(5));
    assert!(b.is_pressed(1));
    // An input within the padded slots grows the known size to cover it.
    b.handle_input(5, ButtonState::Pressed);
    assert!(b.is_pressed(5));
    assert!(b.is_pressed(1));
}

#[test]
fn signaled_exactly_when_an_input_came_since_the_boundary() {
    let mut b = Buttons::new(3);
    b.handle_input(1, ButtonState::Pressed);
    b.handle_input(5, ButtonState::Released);
    for i in 0..8 {
        assert_eq!(b.is_signaled(i), i == 1 || i == 5);
    }
    b.pre_update();
    b.handle_input(2, ButtonState::Pressed);
    for i in 0..8 {
        assert_eq!(b.is_signaled(i), i == 2);
    }
}
