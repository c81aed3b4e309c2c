use rust_try_lib::inputs::buttons::ButtonState;
use rust_try_lib::inputs::devices::{DeviceEvent, DeviceInputs, FrameInput, MockInput, MouseInput};
use rust_try_lib::inputs::keyboard::KeyCode;
use rust_try_lib::inputs::DeviceType;

/// A test event: what kind of device it reveals, and a payload.
#[derive(Clone, Copy)]
struct Ev {
    reveals: Option<DeviceType>,
    payload: i32,
}

#[derive(Default)]
struct Mock {
    seen: i32,
    frames: u32,
}

impl MockInput<Ev> for Mock {
    fn handle_input(&mut self, input: &Ev) -> Option<DeviceType> {
        self.seen += input.payload;
        input.reveals
    }
}

impl FrameInput for Mock {
    fn pre_update(&mut self) {
        self.frames += 1;
    }
}

struct Mouse {
    inherited: i32,
    total: i32,
    frames: u32,
}

impl From<Mock> for Mouse {
    fn from(m: Mock) -> Self {
        Mouse { inherited: m.seen, total: 0, frames: 0 }
    }
}

impl MouseInput<Ev> for Mouse {
    fn handle_device_input(&mut self, input: Ev) {
        self.total += input.payload;
    }
}

impl FrameInput for Mouse {
    fn pre_update(&mut self) {
        self.frames += 1;
    }
}

fn other(reveals: Option<DeviceType>, payload: i32) -> DeviceEvent<Ev> {
    DeviceEvent::Other(Ev { reveals, payload })
}

#[test]
fn new_devices_are_identified_by_their_events() {
    let mut d: DeviceInputs<Mouse, Mock> = DeviceInputs::new();
    assert!(d.keyboard(None).is_none());
    d.handle_input(1, DeviceEvent::Added);
    d.handle_input(1, other(None, 2));
    assert!(d.mouse(Some(1)).is_none());
    d.handle_input(1, other(Some(DeviceType::Mouse), 3));
    // Identified as a mouse made from the mock, and the event reached it.
    let m = d.mouse(None).expect("primary mouse");
    assert_eq!(m.inherited, 5);
    assert_eq!(m.total, 3);
    assert!(d.mouse(Some(1)).is_some());
}

#[test]
fn first_keyboard_becomes_primary_and_takes_keys() {
    let mut d: DeviceInputs<Mouse, Mock> = DeviceInputs::new();
    d.handle_input(7, DeviceEvent::Added);
    d.handle_input(
        7,
        DeviceEvent::Key {
            virtual_keycode: Some(usize::from(KeyCode::Q)),
            state: ButtonState::Pressed,
            event: Ev { reveals: Some(DeviceType::Keyboard), payload: 0 },
        },
    );
    let k = d.keyboard(None).expect("primary keyboard");
    assert!(k.is_pressed(usize::from(KeyCode::Q)));
    d.handle_input(8, DeviceEvent::Added);
    d.handle_input(8, other(Some(DeviceType::Keyboard), 0));
    // The first keyboard stays primary.
    assert!(d.keyboard(None).expect("primary").is_pressed(usize::from(KeyCode::Q)));
    assert!(d.keyboard(Some(8)).expect("second").is_released(usize::from(KeyCode::Q)));
    d.pre_update();
    assert!(!d.keyboard(Some(7)).expect("first").is_just_pressed(usize::from(KeyCode::Q)));
}

#[test]
fn removing_the_primary_picks_another() {
    let mut d: DeviceInputs<Mouse, Mock> = DeviceInputs::new();
    for id in [1u64, 2] {
        d.handle_input(id, DeviceEvent::Added);
        d.handle_input(id, other(Some(DeviceType::Keyboard), 0));
    }
    d.handle_input(1, DeviceEvent::Removed);
    assert!(d.keyboard(Some(1)).is_none());
    assert!(d.keyboard(None).is_some());
    d.handle_input(2, DeviceEvent::Removed);
    assert!(d.keyboard(None).is_none());
}

#[test]
fn frame_boundary_reaches_every_device() {
    let mut d: DeviceInputs<Mouse, Mock> = DeviceInputs::new();
    d.handle_input(1, DeviceEvent::Added);
    d.handle_input(2, DeviceEvent::Added);
    d.handle_input(2, other(Some(DeviceType::Mouse), 0));
    d.pre_update();
    d.pre_update();
    assert_eq!(d.mouse(Some(2)).expect("mouse").frames, 2);
}

#[test]
fn later_events_reach_the_mouse() {
    let mut d: DeviceInputs<Mouse, Mock> = DeviceInputs::new();
    d.handle_input(4, DeviceEvent::Added);
    d.handle_input(4, other(Some(DeviceType::Mouse), 1));
    d.handle_input(4, other(None, 10));
    d.handle_input(4, other(None, 100));
    assert_eq!(d.mouse(Some(4)).expect("mouse").total, 111);
}

#[test]
fn adding_a_waiting_device_again_starts_it_afresh() {
    let mut d: DeviceInputs<Mouse, Mock> = DeviceInputs::new();
    d.handle_input(3, DeviceEvent::Added);
    d.handle_input(3, other(None, 5));
    d.handle_input(3, DeviceEvent::Added);
    d.handle_input(3, other(Some(DeviceType::Mouse), 0));
    assert_eq!(d.mouse(Some(3)).expect("mouse").inherited, 0);
}
