//! Where the cursor is over a window and whether it is inside it.

use vstd::prelude::*;

use super::DeviceType;

verus! {

/// A cursor event of a window, with positions of type `P`. Devices are
/// numbered by the caller.
pub enum CursorEvent<P> {
    /// The cursor moved to `position`.
    Moved { device_id: u64, position: P },
    /// The cursor entered the window.
    Entered { device_id: u64 },
    /// The cursor left the window.
    Left { device_id: u64 },
    /// Any other window event.
    Other,
}

/// The abstract content of a [`Cursor`].
pub ghost struct CursorView<P> {
    pub position: P,
    pub entered: bool,
    pub prev_entered: bool,
}

/// The cursor of one window: its last position, and whether it is inside
/// the window now and was in the previous frame.
pub struct Cursor<P> {
    position: P,
    entered: bool,
    prev_entered: bool,
}

impl<P> View for Cursor<P> {
    type V = CursorView<P>;

    closed spec fn view(&self) -> CursorView<P> {
        CursorView { position: self.position, entered: self.entered, prev_entered: self.prev_entered }
    }
}

impl<P: Copy> Cursor<P> {
    /// A cursor at `origin`, outside the window in both frames.
    pub fn new(origin: P) -> (r: Self)
        ensures
            r@ == (CursorView { position: origin, entered: false, prev_entered: false }),
    {
        Self { position: origin, entered: false, prev_entered: false }
    }

    pub fn position(&self) -> (r: P)
        ensures
            r == self@.position,
    {
        self.position
    }

    pub fn is_entered(&self) -> (r: bool)
        ensures
            r == self@.entered,
    {
        self.entered
    }

    /// Inside the window now, outside in the previous frame.
    pub fn is_just_entered(&self) -> (r: bool)
        ensures
            r == (self@.entered && !self@.prev_entered),
    {
        self.entered && !self.prev_entered
    }

    /// Outside the window now, inside in the previous frame.
    pub fn is_just_left(&self) -> (r: bool)
        ensures
            r == (!self@.entered && self@.prev_entered),
    {
        !self.entered && self.prev_entered
    }

    /// Frame boundary: the present inside/outside state becomes the previous one.
    pub fn pre_update(&mut self)
        ensures
            final(self)@ == (CursorView {
                position: old(self)@.position,
                entered: old(self)@.entered,
                prev_entered: old(self)@.entered,
            }),
    {
        self.prev_entered = self.entered;
    }

    /// Records a cursor event; answers the device that sent it, a mouse, or
    /// `None` for an event that is not about the cursor.
    pub fn handle_input(&mut self, input: CursorEvent<P>) -> (r: Option<(u64, DeviceType)>)
        ensures
            match input {
                CursorEvent::Moved { device_id, position } => {
                    &&& final(self)@ == CursorView { position, ..old(self)@ }
                    &&& r == Some((device_id, DeviceType::Mouse))
                },
                CursorEvent::Entered { device_id } => {
                    &&& final(self)@ == CursorView { entered: true, ..old(self)@ }
                    &&& r == Some((device_id, DeviceType::Mouse))
                },
                CursorEvent::Left { device_id } => {
                    &&& final(self)@ == CursorView { entered: false, ..old(self)@ }
                    &&& r == Some((device_id, DeviceType::Mouse))
                },
                CursorEvent::Other => {
                    &&& final(self)@ == old(self)@
                    &&& r is None
                },
            },
    {
        match input {
            CursorEvent::Moved { device_id, position } => {
                self.position = position;
                Some((device_id, DeviceType::Mouse))
            },
            CursorEvent::Entered { device_id } => {
                self.entered = true;
                Some((device_id, DeviceType::Mouse))
            },
            CursorEvent::Left { device_id } => {
                self.entered = false;
                Some((device_id, DeviceType::Mouse))
            },
            CursorEvent::Other => None,
        }
    }
}

/// After a frame boundary the cursor reads neither as just entered nor as
/// just left.
pub proof fn law_boundary_settles_cursor<P>(v: CursorView<P>)
    ensures
        ({
            let w = CursorView { position: v.position, entered: v.entered, prev_entered: v.entered };
            !(w.entered && !w.prev_entered) && !(!w.entered && w.prev_entered)
        }),
{
}

} // verus!
