use rust_try_lib::inputs::buttons::{ButtonState, Buttons};
use rust_try_lib::inputs::mock::{mock_take_in, MockEvent};
use rust_try_lib::inputs::DeviceType;

#[test]
fn events_reveal_the_kind_of_device() {
    let mut b = Buttons::new(4);
    assert_eq!(mock_take_in(&mut b, MockEvent::MouseMotion), Some(DeviceType::Mouse));
    assert_eq!(mock_take_in(&mut b, MockEvent::MouseWheel), Some(DeviceType::Mouse));
    assert_eq!(mock_take_in(&mut b, MockEvent::Key), Some(DeviceType::Keyboard));
    assert_eq!(mock_take_in(&mut b, MockEvent::Motion), None);
    assert_eq!(mock_take_in(&mut b, MockEvent::Text), None);
    assert_eq!(mock_take_in(&mut b, MockEvent::Other), None);
    assert!(!b.is_signaled(0));
}

#[test]
fn button_events_are_recorded() {
    let mut b = Buttons::new(4);
    let r = mock_take_in(&mut b, MockEvent::Button { button: 2, state: ButtonState::Pressed });
    assert_eq!(r, None);
    assert!(b.is_pressed(2));
    assert!(b.is_signaled(2));
    let r = mock_take_in(&mut b, MockEvent::Button { button: 6, state: ButtonState::Pressed });
    assert_eq!(r, None);
    assert!(b.is_pressed(6));
}
