//! What an unidentified device learns from one of its events.

use vstd::prelude::*;

use super::buttons::{ButtonState, Buttons};
use super::DeviceType;

verus! {

/// A device event as an unidentified device sees it.
#[derive(Clone, Copy, Debug, PartialEq, Eq, Structural)]
pub enum MockEvent {
    /// The pointer moved.
    MouseMotion,
    /// The wheel turned.
    MouseWheel,
    /// A key changed.
    Key,
    /// An axis moved.
    Motion,
    /// Button `button` went into `state`.
    Button { button: usize, state: ButtonState },
    /// A character was typed.
    Text,
    /// Any other event.
    Other,
}

/// The kind of device `event` reveals: pointer motion and the wheel come
/// from a mouse, key events from a keyboard; other events reveal nothing.
pub open spec fn revealed_kind(event: MockEvent) -> Option<DeviceType> {
    match event {
        MockEvent::MouseMotion => Some(DeviceType::Mouse),
        MockEvent::MouseWheel => Some(DeviceType::Mouse),
        MockEvent::Key => Some(DeviceType::Keyboard),
        _ => None,
    }
}

/// Takes in `event` on the buttons of an unidentified device, and answers
/// the kind of device the event reveals: a button event is recorded in
/// `buttons`; every other event leaves them as they were.
pub fn mock_take_in(buttons: &mut Buttons, event: MockEvent) -> (r: Option<DeviceType>)
    requires
        old(buttons)@.wf(),
        old(buttons)@.exact(),
        event matches MockEvent::Button { button, .. } ==> button < usize::MAX,
    ensures
        r == revealed_kind(event),
        final(buttons)@ == match event {
            MockEvent::Button { button, state } => old(buttons)@.input(button as nat, state),
            _ => old(buttons)@,
        },
        final(buttons)@.wf(),
        final(buttons)@.exact(),
{
    match event {
        MockEvent::MouseMotion => Some(DeviceType::Mouse),
        MockEvent::MouseWheel => Some(DeviceType::Mouse),
        MockEvent::Key => Some(DeviceType::Keyboard),
        MockEvent::Button { button, state } => {
            buttons.handle_input(button, state);
            None
        },
        _ => None,
    }
}

} // verus!
