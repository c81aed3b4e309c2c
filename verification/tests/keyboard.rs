use rust_try_lib::globals::input::{GlobalState, Keyboard as GlobalKeyboard};
use rust_try_lib::input::keyboard::{
    are_just_pressed, are_just_released, are_pressed, are_released, is_just_pressed,
    is_just_released, is_pressed, is_released, KeyCode, KeyState, KeyTables,
};
use rust_try_lib::inputs::buttons::ButtonState;
use rust_try_lib::inputs::keyboard::Keyboard;

#[test]
fn key_codes_are_numbered_in_order() {
    assert_eq!(usize::from(KeyCode::Key1), 0);
    assert_eq!(usize::from(KeyCode::Key0), 9);
    assert_eq!(usize::from(KeyCode::A), 10);
    assert_eq!(usize::from(KeyCode::W), 32);
    assert_eq!(usize::from(KeyCode::Space), 76);
    assert_eq!(usize::from(KeyCode::Cut), 162);
    assert_eq!(KeyCode::LEN, 163);
}

#[test]
fn key_tables_follow_queued_events() {
    let mut t = KeyTables::init();
    assert!(is_released(&t, KeyCode::W));
    t.pre_update();
    t.enqueue(usize::from(KeyCode::W), KeyState::Pressed);
    assert!(is_released(&t, KeyCode::W));
    t.update();
    assert!(is_pressed(&t, KeyCode::W));
    assert!(is_just_pressed(&t, KeyCode::W));
    assert!(!is_just_released(&t, KeyCode::W));
    // Next frame: the queue is drained, W stays held but is no longer new.
    t.pre_update();
    t.update();
    assert!(is_pressed(&t, KeyCode::W));
    assert!(!is_just_pressed(&t, KeyCode::W));
    t.enqueue(usize::from(KeyCode::W), KeyState::Released);
    t.update();
    assert!(is_just_released(&t, KeyCode::W));
}

#[test]
fn last_queued_event_wins() {
    let mut t = KeyTables::init();
    t.enqueue(usize::from(KeyCode::A), KeyState::Pressed);
    t.enqueue(usize::from(KeyCode::A), KeyState::Released);
    t.enqueue(usize::from(KeyCode::S), KeyState::Pressed);
    t.update();
    assert!(is_released(&t, KeyCode::A));
    assert!(is_pressed(&t, KeyCode::S));
    assert!(is_released(&t, KeyCode::D));
}

#[test]
fn group_key_queries() {
    let mut t = KeyTables::init();
    t.enqueue(usize::from(KeyCode::A), KeyState::Pressed);
    t.enqueue(usize::from(KeyCode::S), KeyState::Pressed);
    t.update();
    assert!(are_pressed(&t, &[KeyCode::A, KeyCode::S]));
    assert!(!are_pressed(&t, &[KeyCode::A, KeyCode::D]));
    assert!(are_pressed(&t, &[]));
    assert!(are_released(&t, &[KeyCode::D, KeyCode::F]));
    assert!(are_just_pressed(&t, &[KeyCode::S, KeyCode::A]));
    assert!(!are_just_released(&t, &[KeyCode::A]));
}

#[test]
fn global_keyboard_tracks_changes() {
    let mut k = GlobalKeyboard::new();
    k.handle_input(Some(usize::from(KeyCode::D)), KeyState::Pressed);
    k.handle_input(None, KeyState::Pressed);
    assert!(k.is_pressed(KeyCode::D));
    assert!(k.just_pressed(KeyCode::D));
    assert!(k.is_released(KeyCode::A));
    k.pre_update();
    assert!(!k.just_pressed(KeyCode::D));
    assert!(k.is_pressed(KeyCode::D));
    k.handle_input(Some(usize::from(KeyCode::D)), KeyState::Released);
    assert!(k.just_released(KeyCode::D));
}

#[test]
fn keyboard_buttons_by_key_code() {
    let mut k = Keyboard::new();
    k.handle_input(Some(usize::from(KeyCode::W)), ButtonState::Pressed);
    k.handle_input(None, ButtonState::Released);
    assert!(k.is_pressed(KeyCode::W.into()));
    assert!(k.is_just_pressed(KeyCode::W.into()));
    assert!(k.is_signaled(KeyCode::W.into()));
    assert!(k.is_released(KeyCode::S.into()));
    k.pre_update();
    assert!(!k.is_just_pressed(KeyCode::W.into()));
    assert!(!k.is_signaled(KeyCode::W.into()));
    assert!(k.are_pressed(&[KeyCode::W.into()]));
}

#[test]
fn global_just_changed_follows_the_last_event() {
    let mut kb = GlobalKeyboard::new();
    // Pressed, then released and pressed again in one frame: the state
    // before the last event was up, so the key reads as just pressed.
    kb.handle_input(Some(usize::from(KeyCode::E)), KeyState::Pressed);
    kb.handle_input(Some(usize::from(KeyCode::E)), KeyState::Released);
    kb.handle_input(Some(usize::from(KeyCode::E)), KeyState::Pressed);
    assert!(kb.just_pressed(KeyCode::E));
    // A key with no event reads as neither.
    assert!(!kb.just_pressed(KeyCode::R) && !kb.just_released(KeyCode::R));
    kb.pre_update();
    assert!(kb.is_pressed(KeyCode::E));
    assert!(!kb.just_pressed(KeyCode::E) && !kb.just_released(KeyCode::E));
    // Pressed twice: the state before the last event was down already.
    kb.handle_input(Some(usize::from(KeyCode::R)), KeyState::Pressed);
    kb.handle_input(Some(usize::from(KeyCode::R)), KeyState::Pressed);
    assert!(!kb.just_pressed(KeyCode::R));
}
