//! What a camera controller reads from the input tables.

use vstd::prelude::*;

use super::cursor::Cursor;
use super::keyboard::{KeyCode, Keyboard};

verus! {

/// Which mouse motion drives the camera in this frame.
#[derive(Clone, Copy, Debug, PartialEq, Eq, Structural)]
pub enum MotionSource {
    /// The last motion step: the cursor just entered the window.
    LastMotion,
    /// The motion summed over the frame: the cursor stays inside.
    Motion,
    /// The first motion step: the cursor just left the window.
    FirstMotion,
    /// No motion: the cursor stays outside.
    Zero,
}

/// 1 when the key is held down, 0 otherwise.
pub open spec fn held(k: &Keyboard, key: KeyCode) -> int {
    if k@.pressed(key as int) { 1 } else { 0 }
}

fn held_value(k: &Keyboard, key: KeyCode) -> (r: i8)
    requires
        k.wf(),
    ensures
        r == held(k, key),
{
    if k.is_pressed(key as usize) {
        1
    } else {
        0
    }
}

/// The movement the keys ask for, as (forward, right, up), each -1, 0 or 1:
/// W forward and S back, D right and A left, Space up and left Shift down.
pub fn move_direction(keyboard: &Keyboard) -> (r: (i8, i8, i8))
    requires
        keyboard.wf(),
    ensures
        r.0 == held(keyboard, KeyCode::W) - held(keyboard, KeyCode::S),
        r.1 == held(keyboard, KeyCode::D) - held(keyboard, KeyCode::A),
        r.2 == held(keyboard, KeyCode::Space) - held(keyboard, KeyCode::LShift),
{
    let forward = held_value(keyboard, KeyCode::W);
    let backward = held_value(keyboard, KeyCode::S);
    let right = held_value(keyboard, KeyCode::D);
    let left = held_value(keyboard, KeyCode::A);
    let up = held_value(keyboard, KeyCode::Space);
    let down = held_value(keyboard, KeyCode::LShift);
    (forward - backward, right - left, up - down)
}

/// The mouse motion to use given where the cursor is: the last step when it
/// just entered the window, the whole frame's motion while inside, the first
/// step when it just left, none while outside.
pub fn motion_source<P: Copy>(cursor: &Cursor<P>) -> (r: MotionSource)
    ensures
        r == (if cursor@.entered && !cursor@.prev_entered {
            MotionSource::LastMotion
        } else if cursor@.entered {
            MotionSource::Motion
        } else if cursor@.prev_entered {
            MotionSource::FirstMotion
        } else {
            MotionSource::Zero
        }),
{
    if cursor.is_just_entered() {
        MotionSource::LastMotion
    } else if cursor.is_entered() {
        MotionSource::Motion
    } else if cursor.is_just_left() {
        MotionSource::FirstMotion
    } else {
        MotionSource::Zero
    }
}

} // verus!
