//! A keyboard as a table of buttons, one per key code.

use vstd::prelude::*;

use super::buttons::{ButtonState, Buttons, ButtonsView};

pub use crate::input::keyboard::KeyCode;

verus! {

/// The buttons of one keyboard, addressed by key number.
pub struct Keyboard {
    buttons: Buttons,
}

impl View for Keyboard {
    type V = ButtonsView;

    closed spec fn view(&self) -> ButtonsView {
        self.buttons@
    }
}

impl Keyboard {
    /// A keyboard's table has one slot per known key in each of its parts.
    pub open spec fn wf(&self) -> bool {
        self@.wf() && self@.exact()
    }

    /// A keyboard with one button per key code, all up and none signaled.
    pub fn new() -> (r: Self)
        ensures
            r.wf(),
            r@.size == KeyCode::LEN,
            r@.signal == Seq::new(KeyCode::LEN as nat, |i: int| false),
            r@.current == Seq::new(KeyCode::LEN as nat, |i: int| ButtonState::Released),
            r@.before == Seq::new(KeyCode::LEN as nat, |i: int| ButtonState::Released),
    {
        Self { buttons: Buttons::new(KeyCode::LEN) }
    }

    /// Frame boundary (see [`Buttons::pre_update`]).
    pub fn pre_update(&mut self)
        requires
            old(self).wf(),
        ensures
            final(self).wf(),
            final(self)@ == old(self)@.next_frame(),
    {
        self.buttons.pre_update();
    }

    /// Records a key event: `virtual_keycode` is the number of the key, or
    /// `None` for a key without a code, which is ignored.
    pub fn handle_input(&mut self, virtual_keycode: Option<usize>, state: ButtonState)
        requires
            old(self).wf(),
            virtual_keycode matches Some(key) ==> key < usize::MAX,
        ensures
            final(self).wf(),
            final(self)@ == (match virtual_keycode {
                Some(key) => old(self)@.input(key as nat, state),
                None => old(self)@,
            }),
    {
        if let Some(key) = virtual_keycode {
            self.buttons.handle_input(key, state);
        }
    }
}

impl core::ops::Deref for Keyboard {
    type Target = Buttons;

    fn deref(&self) -> (r: &Buttons)
        ensures
            r@ == self@,
    {
        &self.buttons
    }
}

} // verus!
