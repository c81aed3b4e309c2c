use rust_try_lib::inputs::control::{motion_source, move_direction, MotionSource};
use rust_try_lib::inputs::cursor::{Cursor, CursorEvent};
use rust_try_lib::inputs::buttons::ButtonState;
use rust_try_lib::inputs::keyboard::{KeyCode, Keyboard};
use rust_try_lib::inputs::DeviceType;

#[test]
fn cursor_tracks_entering_and_leaving() {
    let mut c = Cursor::new((0i32, 0i32));
    assert!(!c.is_entered());
    assert_eq!(motion_source(&c), MotionSource::Zero);
    assert_eq!(c.handle_input(CursorEvent::Entered { device_id: 4 }), Some((4, DeviceType::Mouse)));
    assert!(c.is_just_entered());
    assert_eq!(motion_source(&c), MotionSource::LastMotion);
    c.pre_update();
    assert!(c.is_entered() && !c.is_just_entered());
    assert_eq!(motion_source(&c), MotionSource::Motion);
    assert_eq!(c.handle_input(CursorEvent::Moved { device_id: 4, position: (3, 5) }), Some((4, DeviceType::Mouse)));
    assert_eq!(c.position(), (3, 5));
    c.handle_input(CursorEvent::Left { device_id: 4 });
    assert!(c.is_just_left());
    assert_eq!(motion_source(&c), MotionSource::FirstMotion);
    assert_eq!(c.handle_input(CursorEvent::Other), None);
    c.pre_update();
    assert!(!c.is_just_left());
}

#[test]
fn keys_give_the_move_direction() {
    let mut k = Keyboard::new();
    assert_eq!(move_direction(&k), (0, 0, 0));
    k.handle_input(Some(usize::from(KeyCode::W)), ButtonState::Pressed);
    k.handle_input(Some(usize::from(KeyCode::A)), ButtonState::Pressed);
    k.handle_input(Some(usize::from(KeyCode::LShift)), ButtonState::Pressed);
    assert_eq!(move_direction(&k), (1, -1, -1));
    k.handle_input(Some(usize::from(KeyCode::S)), ButtonState::Pressed);
    k.handle_input(Some(usize::from(KeyCode::D)), ButtonState::Pressed);
    k.handle_input(Some(usize::from(KeyCode::Space)), ButtonState::Pressed);
    assert_eq!(move_direction(&k), (0, 0, 0));
}
