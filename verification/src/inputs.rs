//! Per-device input tables: generic buttons and the keyboard built on them.

pub mod buttons;
pub mod keyboard;
pub mod cursor;
pub mod control;
pub mod devices;
pub mod mock;

use vstd::prelude::*;

verus! {

/// The kind of device an input event revealed.
#[derive(Debug, Clone, Copy, PartialEq, Eq, Structural)]
pub enum DeviceType {
    Keyboard,
    Mouse,
}

} // verus!
