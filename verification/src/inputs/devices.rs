//! Input devices not tied to a window: keyboards, mice, and devices not yet
//! identified, with a primary keyboard and a primary mouse.

use vstd::prelude::*;

use std::collections::HashMap;

use vstd::std_specs::iter::IteratorSpec;

use super::buttons::{ButtonState, ButtonsView};
use super::keyboard::Keyboard;
use super::DeviceType;

verus! {

broadcast use vstd::std_specs::hash::group_hash_axioms;

/// State with work to do at each frame boundary.
pub trait FrameInput: Sized {
    /// What a frame boundary does, as the implementation defines it: whether
    /// it may turn `self` into `next`. An implementation that does not define
    /// it promises nothing about what the boundary does.
    open spec fn frame_boundary(self, next: Self) -> bool {
        true
    }

    fn pre_update(&mut self)
        ensures
            old(self).frame_boundary(*final(self)),
    ;
}

/// A device not identified yet, which looks at its events of type `E`.
pub trait MockInput<E>: Sized {
    /// What taking in an event does, as the implementation defines it:
    /// whether taking in `input` may turn `self` into `next` and answer
    /// `found`. An implementation that does not define it promises nothing
    /// about what taking in does.
    open spec fn takes_in(self, input: E, next: Self, found: Option<DeviceType>) -> bool {
        true
    }

    /// Takes in `input`; answers the kind of device the event reveals, if any.
    fn handle_input(&mut self, input: &E) -> (found: Option<DeviceType>)
        ensures
            old(self).takes_in(*input, *final(self), found),
    ;
}

/// A mouse that takes in device events of type `E`.
pub trait MouseInput<E>: Sized {
    /// What taking in a device event does, as the implementation defines it:
    /// whether taking in `input` may turn `self` into `next`. An
    /// implementation that does not define it promises nothing about what
    /// taking in does.
    open spec fn takes_device_input(self, input: E, next: Self) -> bool {
        true
    }

    fn handle_device_input(&mut self, input: E)
        ensures
            old(self).takes_device_input(input, *final(self)),
    ;
}

/// A device event; `E` is the full event, handed on to the device that
/// takes it in. Devices are numbered by the caller.
pub enum DeviceEvent<E> {
    /// A device was plugged in.
    Added,
    /// A device was removed.
    Removed,
    /// A key event: `virtual_keycode` is the key's number, if it has one.
    Key { virtual_keycode: Option<usize>, state: ButtonState, event: E },
    /// Any other event.
    Other(E),
}

/// The first key of `m` in iteration order, or `None` when `m` is empty.
fn any_key<V>(m: &HashMap<u64, V>) -> (r: Option<u64>)
    ensures
        match r {
            Some(k) => m@.contains_key(k),
            None => m@.dom() =~= Set::<u64>::empty(),
        },
{
    let keys = key_list(m);
    if keys.len() > 0 {
        assert(keys@.to_set().contains(keys@[0]));
        Some(keys[0])
    } else {
        assert(keys@.to_set() =~= Set::<u64>::empty());
        None
    }
}

/// The keys of `m`, each once.
fn key_list<V>(m: &HashMap<u64, V>) -> (r: Vec<u64>)
    ensures
        r@.to_set() == m@.dom(),
        r@.no_duplicates(),
{
    let mut r: Vec<u64> = Vec::new();
    for k in it: m.keys()
        invariant
            r@ == it.seq().take(it.index()).unref(),
            it.seq() == vstd::std_specs::hash::spec_keys_iter(m).remaining(),
    {
        assert(it.seq().take(it.index() + 1).unref() =~= it.seq().take(it.index()).unref().push(*k));
        r.push(*k);
    }
    assert(r@ =~= vstd::std_specs::hash::spec_keys_iter(m).remaining().unref());
    r
}

/// The keyboards of `m`, each as its button table.
pub open spec fn keyboard_views(m: Map<u64, Keyboard>) -> Map<u64, ButtonsView> {
    Map::new(|k: u64| m.contains_key(k), |k: u64| m[k]@)
}

/// The button table of a newly identified keyboard: one button per key
/// code, all up, none signaled.
pub open spec fn fresh_keyboard() -> ButtonsView {
    ButtonsView {
        size: 163,
        signal: Seq::new(163, |i: int| false),
        current: Seq::new(163, |i: int| ButtonState::Released),
        before: Seq::new(163, |i: int| ButtonState::Released),
    }
}

/// The abstract content of [`DeviceInputs`].
pub ghost struct DevicesView<M, X> {
    pub keyboards: Map<u64, ButtonsView>,
    pub primary_keyboard: Option<u64>,
    pub mice: Map<u64, M>,
    pub primary_mouse: Option<u64>,
    pub mocks: Map<u64, X>,
}

impl<M, X> DevicesView<M, X> {
    /// Every keyboard table is well formed with one slot per known key, and
    /// there is a primary keyboard (mouse) exactly when there is a keyboard
    /// (mouse), and it is one of them.
    pub open spec fn wf(self) -> bool {
        &&& forall|k: u64| #[trigger] self.keyboards.contains_key(k) ==> self.keyboards[k].wf() && self.keyboards[k].exact()
        &&& match self.primary_keyboard {
            Some(p) => self.keyboards.contains_key(p),
            None => self.keyboards.dom() == Set::<u64>::empty(),
        }
        &&& match self.primary_mouse {
            Some(p) => self.mice.contains_key(p),
            None => self.mice.dom() == Set::<u64>::empty(),
        }
    }

    /// `w` is `self` after unidentified device `device_id` turned out to be
    /// of kind `device_type`: it leaves the unidentified devices, joins the
    /// keyboards as a fresh keyboard or the mice as the mouse converted from
    /// it (`M::from`), and becomes the primary device of its kind if there
    /// was none.
    pub open spec fn identified(self, w: Self, device_id: u64, device_type: DeviceType) -> bool
        where M: From<X>,
    {
        if !self.mocks.contains_key(device_id) {
            w == self
        } else {
            &&& w.mocks == self.mocks.remove(device_id)
            &&& match device_type {
                DeviceType::Keyboard => {
                    &&& w.keyboards == self.keyboards.insert(device_id, fresh_keyboard())
                    &&& w.primary_keyboard == (match self.primary_keyboard {
                        Some(p) => Some(p),
                        None => Some(device_id),
                    })
                    &&& w.mice == self.mice
                    &&& w.primary_mouse == self.primary_mouse
                },
                DeviceType::Mouse => {
                    &&& w.mice.dom() == self.mice.dom().insert(device_id)
                    &&& call_ensures(M::from, (self.mocks[device_id],), w.mice[device_id])
                    &&& forall|k: u64| k != device_id && #[trigger] self.mice.contains_key(k) ==> w.mice[k] == self.mice[k]
                    &&& w.primary_mouse == (match self.primary_mouse {
                        Some(p) => Some(p),
                        None => Some(device_id),
                    })
                    &&& w.keyboards == self.keyboards
                    &&& w.primary_keyboard == self.primary_keyboard
                },
            }
        }
    }

    /// `w` is `self` after device `device_id` was removed: an unidentified
    /// device is dropped first; otherwise a keyboard, and then the primary
    /// keyboard becomes any keyboard left, if one is; otherwise a mouse, in
    /// the same way.
    pub open spec fn removed(self, w: Self, device_id: u64) -> bool {
        if self.mocks.contains_key(device_id) {
            w == Self { mocks: self.mocks.remove(device_id), ..self }
        } else if self.keyboards.contains_key(device_id) {
            &&& w.keyboards == self.keyboards.remove(device_id)
            &&& match w.primary_keyboard {
                Some(p) => w.keyboards.contains_key(p),
                None => w.keyboards.dom() == Set::<u64>::empty(),
            }
            &&& w.mice == self.mice
            &&& w.primary_mouse == self.primary_mouse
            &&& w.mocks == self.mocks
        } else if self.mice.contains_key(device_id) {
            &&& w.mice == self.mice.remove(device_id)
            &&& match w.primary_mouse {
                Some(p) => w.mice.contains_key(p),
                None => w.mice.dom() == Set::<u64>::empty(),
            }
            &&& w.keyboards == self.keyboards
            &&& w.primary_keyboard == self.primary_keyboard
            &&& w.mocks == self.mocks
        } else {
            w == self
        }
    }

    /// `w` is `self` after unidentified device `device_id`, if it is one,
    /// took in `event` (see [`MockInput::takes_in`]): it is left in the state
    /// taking in turned it into, and when the event revealed its kind it is
    /// then identified as that kind.
    pub open spec fn offered<E>(self, w: Self, device_id: u64, event: E) -> bool
        where X: MockInput<E>, M: From<X>,
    {
        if self.mocks.contains_key(device_id) {
            exists|next: X, found: Option<DeviceType>|
                #[trigger] self.mocks[device_id].takes_in(event, next, found) && {
                    let taken = Self { mocks: self.mocks.insert(device_id, next), ..self };
                    match found {
                        Some(device_type) => taken.identified(w, device_id, device_type),
                        None => w == taken,
                    }
                }
        } else {
            w == self
        }
    }

    /// `w` is `self` after `event` of device `device_id` reached the device
    /// that takes it: a keyboard takes only key events, which it records
    /// (`key`); failing a keyboard, a mouse takes every event (see
    /// [`MouseInput::takes_device_input`]). Only that device may change.
    pub open spec fn routed<E>(
        self,
        w: Self,
        device_id: u64,
        key: Option<(Option<usize>, ButtonState)>,
        event: E,
    ) -> bool
        where M: MouseInput<E>,
    {
        &&& w.primary_keyboard == self.primary_keyboard
        &&& w.primary_mouse == self.primary_mouse
        &&& w.mocks == self.mocks
        &&& w.mice.dom() == self.mice.dom()
        &&& forall|k: u64| k != device_id && #[trigger] self.mice.contains_key(k) ==> w.mice[k] == self.mice[k]
        &&& if self.keyboards.contains_key(device_id) {
            &&& w.mice == self.mice
            &&& w.keyboards == match key {
                Some((Some(code), state)) => self.keyboards.insert(
                    device_id,
                    self.keyboards[device_id].input(code as nat, state),
                ),
                _ => self.keyboards,
            }
        } else {
            &&& w.keyboards == self.keyboards
            &&& self.mice.contains_key(device_id) ==> self.mice[device_id].takes_device_input(
                event,
                w.mice[device_id],
            )
        }
    }
}

/// Keyboards, mice and unidentified devices by device number, with the
/// primary keyboard and mouse, which answer queries that name no device.
pub struct DeviceInputs<M, X> {
    keyboards: HashMap<u64, Keyboard>,
    primary_keyboard_id: Option<u64>,
    mouses: HashMap<u64, M>,
    primary_mouse_id: Option<u64>,
    mocks: HashMap<u64, X>,
}

impl<M, X> View for DeviceInputs<M, X> {
    type V = DevicesView<M, X>;

    closed spec fn view(&self) -> DevicesView<M, X> {
        DevicesView {
            keyboards: keyboard_views(self.keyboards@),
            primary_keyboard: self.primary_keyboard_id,
            mice: self.mouses@,
            primary_mouse: self.primary_mouse_id,
            mocks: self.mocks@,
        }
    }
}

impl<M, X> DeviceInputs<M, X> {

    /// See [`DevicesView::wf`].
    pub open spec fn wf(&self) -> bool {
        self@.wf()
    }

    /// No devices.
    pub fn new() -> (r: Self)
        ensures
            r.wf(),
            r@.keyboards == Map::<u64, ButtonsView>::empty(),
            r@.mice == Map::<u64, M>::empty(),
            r@.mocks == Map::<u64, X>::empty(),
            r@.primary_keyboard is None,
            r@.primary_mouse is None,
    {
        let r = Self {
            keyboards: HashMap::new(),
            primary_keyboard_id: None,
            mouses: HashMap::new(),
            primary_mouse_id: None,
            mocks: HashMap::new(),
        };
        assert(r@.keyboards =~= Map::<u64, ButtonsView>::empty());
        r
    }

    /// The keyboard numbered `device_id`, or the primary keyboard when no
    /// device is named.
    pub fn keyboard(&self, device_id: Option<u64>) -> (r: Option<&Keyboard>)
        requires
            self.wf(),
        ensures
            ({
                let id = match device_id {
                    Some(d) => Some(d),
                    None => self@.primary_keyboard,
                };
                match r {
                    Some(k) => id matches Some(d) && self@.keyboards.contains_key(d)
                        && k@ == self@.keyboards[d] && k.wf(),
                    None => !(id matches Some(d) && self@.keyboards.contains_key(d)),
                }
            }),
    {
        match device_id {
            Some(device_id) => self.keyboards.get(&device_id),
            None => match self.primary_keyboard_id {
                Some(primary_keyboard_id) => self.keyboards.get(&primary_keyboard_id),
                None => None,
            },
        }
    }

    /// The mouse numbered `device_id`, or the primary mouse when no device
    /// is named.
    pub fn mouse(&self, device_id: Option<u64>) -> (r: Option<&M>)
        ensures
            ({
                let id = match device_id {
                    Some(d) => Some(d),
                    None => self@.primary_mouse,
                };
                match r {
                    Some(m) => id matches Some(d) && self@.mice.contains_key(d) && *m
                        == self@.mice[d],
                    None => !(id matches Some(d) && self@.mice.contains_key(d)),
                }
            }),
    {
        match device_id {
            Some(device_id) => self.mouses.get(&device_id),
            None => match self.primary_mouse_id {
                Some(primary_mouse_id) => self.mouses.get(&primary_mouse_id),
                None => None,
            },
        }
    }
}

/// Runs the frame boundary of every device in `m`, once each.
fn pre_update_each<V: FrameInput>(m: &mut HashMap<u64, V>)
    ensures
        final(m)@.dom() == old(m)@.dom(),
        forall|k: u64| #[trigger] old(m)@.contains_key(k) ==> old(m)@[k].frame_boundary(final(m)@[k]),
{
    let ids = key_list(m);
    let ghost m0 = old(m)@;
    let mut i: usize = 0;
    while i < ids.len()
        invariant
            0 <= i <= ids@.len(),
            ids@.to_set() == m0.dom(),
            ids@.no_duplicates(),
            m0 == old(m)@,
            m@.dom() == m0.dom(),
            forall|k: u64|
                #[trigger] m0.contains_key(k) ==> if ids@.take(i as int).contains(k) {
                    m0[k].frame_boundary(m@[k])
                } else {
                    m@[k] == m0[k]
                },
        decreases ids@.len() - i,
    {
        let id = ids[i];
        assert(ids@.to_set().contains(ids@[i as int]));
        let ghost before = m@;
        match m.remove(&id) {
            Some(mut device) => {
                device.pre_update();
                m.insert(id, device);
                assert(m@.dom() =~= m0.dom());
            },
            None => {},
        }
        assert forall|k: u64| #[trigger] m0.contains_key(k) implies (if ids@.take(i + 1).contains(k) {
            m0[k].frame_boundary(m@[k])
        } else {
            m@[k] == m0[k]
        }) by {
            if k == id {
                assert(ids@.take(i + 1)[i as int] == k);
                assert(!ids@.take(i as int).contains(k)) by {
                    if ids@.take(i as int).contains(k) {
                        let j = choose|j: int| 0 <= j < i && #[trigger] ids@.take(i as int)[j] == k;
                        assert(ids@[j] == ids@[i as int]);
                    }
                }
            } else {
                assert(m@[k] == before[k]);
                if ids@.take(i + 1).contains(k) {
                    let j = choose|j: int| 0 <= j < i + 1 && #[trigger] ids@.take(i + 1)[j] == k;
                    assert(ids@.take(i as int)[j] == k);
                }
                if ids@.take(i as int).contains(k) {
                    let j = choose|j: int| 0 <= j < i && #[trigger] ids@.take(i as int)[j] == k;
                    assert(ids@.take(i + 1)[j] == k);
                }
            }
        }
        i = i + 1;
    }
    proof {
        assert(ids@.take(ids@.len() as int) =~= ids@);
        assert forall|k: u64| #[trigger] m0.contains_key(k) implies ids@.contains(k) by {
            assert(ids@.to_set().contains(k));
        }
    }
}

impl<M, X> DeviceInputs<M, X> {
    /// Unidentified device `device_id`, if it is one, turned out to be of
    /// kind `device_type`: it becomes a fresh keyboard, or a mouse made from
    /// it, and the primary device of its kind if there was none.
    pub fn replace_mock(&mut self, device_id: u64, device_type: DeviceType)
        where M: From<X>,
        requires
            old(self).wf(),
        ensures
            final(self).wf(),
            old(self)@.identified(final(self)@, device_id, device_type),
    {
        let ghost v0 = self@;
        match self.mocks.remove(&device_id) {
            Some(mock) => match device_type {
                DeviceType::Keyboard => {
                    if self.primary_keyboard_id.is_none() {
                        self.primary_keyboard_id = Some(device_id);
                    }
                    let keyboard = Keyboard::new();
                    assert(keyboard@ =~= fresh_keyboard());
                    self.keyboards.insert(device_id, keyboard);
                    assert(self@.keyboards =~= old(self)@.keyboards.insert(device_id, fresh_keyboard()));
                    assert(self@.mocks =~= v0.mocks.remove(device_id));
                    assert(v0.mocks.contains_key(device_id));
                },
                DeviceType::Mouse => {
                    if self.primary_mouse_id.is_none() {
                        self.primary_mouse_id = Some(device_id);
                    }
                    let ghost mock0 = mock;
                    let mouse = M::from(mock);
                    assert(call_ensures(M::from, (mock0,), mouse));
                    self.mouses.insert(device_id, mouse);
                    assert(self@.mice.dom() =~= old(self)@.mice.dom().insert(device_id));
                    assert(self@.mocks =~= v0.mocks.remove(device_id));
                    assert(v0.mocks.contains_key(device_id));
                },
            },
            None => {
                assert(!v0.mocks.contains_key(device_id));
                assert(self@.mocks =~= v0.mocks);
                assert(self@ == v0);
            },
        }
    }

    /// Forgets device `device_id` (see [`DevicesView::removed`]).
    fn remove_device(&mut self, device_id: u64)
        requires
            old(self).wf(),
        ensures
            final(self).wf(),
            old(self)@.removed(final(self)@, device_id),
    {
        let ghost v0 = self@;
        if self.mocks.remove(&device_id).is_some() {
            assert(v0.mocks.contains_key(device_id));
            assert(self@.mocks =~= v0.mocks.remove(device_id));
            assert(self@ == DevicesView { mocks: v0.mocks.remove(device_id), ..v0 });
        } else if self.keyboards.remove(&device_id).is_some() {
            self.primary_keyboard_id = any_key(&self.keyboards);
            assert(self@.keyboards =~= old(self)@.keyboards.remove(device_id));
            assert(self@.mocks =~= v0.mocks);
            assert(!v0.mocks.contains_key(device_id));
            assert(v0.keyboards.contains_key(device_id));
            assert(self@.keyboards.dom() =~= self.keyboards@.dom());
        } else if self.mouses.remove(&device_id).is_some() {
            self.primary_mouse_id = any_key(&self.mouses);
            assert(self@.mice =~= v0.mice.remove(device_id));
            assert(self@.mocks =~= v0.mocks);
            assert(self@.keyboards =~= v0.keyboards);
            assert(!v0.mocks.contains_key(device_id));
            assert(!v0.keyboards.contains_key(device_id));
            assert(v0.mice.contains_key(device_id));
        } else {
            assert(self@.mocks =~= v0.mocks);
            assert(self@.keyboards =~= v0.keyboards);
            assert(self@.mice =~= v0.mice);
            assert(self@ == v0);
        }
    }

    /// Frame boundary of every device.
    pub fn pre_update(&mut self)
        where M: FrameInput, X: FrameInput,
        requires
            old(self).wf(),
        ensures
            final(self).wf(),
            final(self)@.keyboards == Map::new(
                |k: u64| old(self)@.keyboards.contains_key(k),
                |k: u64| old(self)@.keyboards[k].next_frame(),
            ),
            final(self)@.primary_keyboard == old(self)@.primary_keyboard,
            final(self)@.primary_mouse == old(self)@.primary_mouse,
            final(self)@.mice.dom() == old(self)@.mice.dom(),
            forall|k: u64| #[trigger] old(self)@.mice.contains_key(k) ==> old(self)@.mice[k].frame_boundary(
                final(self)@.mice[k],
            ),
            final(self)@.mocks.dom() == old(self)@.mocks.dom(),
            forall|k: u64| #[trigger] old(self)@.mocks.contains_key(k) ==> old(self)@.mocks[k].frame_boundary(
                final(self)@.mocks[k],
            ),
    {
        pre_update_each(&mut self.mocks);
        let ghost mocks1 = self.mocks@;
        let ids = key_list(&self.keyboards);
        let ghost kb0 = old(self)@.keyboards;
        let mut i: usize = 0;
        while i < ids.len()
            invariant
                0 <= i <= ids@.len(),
                ids@.to_set() == kb0.dom(),
                ids@.no_duplicates(),
                kb0 == keyboard_views(old(self).keyboards@),
                self.keyboards@.dom() == kb0.dom(),
                self.primary_keyboard_id == old(self).primary_keyboard_id,
                self.primary_mouse_id == old(self).primary_mouse_id,
                self.mouses@ == old(self).mouses@,
                self.mocks@ == mocks1,
                mocks1.dom() == old(self).mocks@.dom(),
                forall|k: u64| #[trigger] old(self).mocks@.contains_key(k) ==> old(self).mocks@[k].frame_boundary(
                    mocks1[k],
                ),
                old(self).wf(),
                forall|k: u64| #[trigger] self.keyboards@.contains_key(k) ==> self.keyboards@[k].wf(),
                forall|k: u64| #[trigger] kb0.contains_key(k) ==> keyboard_views(self.keyboards@)[k]
                    == if ids@.take(i as int).contains(k) { kb0[k].next_frame() } else { kb0[k] },
            decreases ids@.len() - i,
        {
            let id = ids[i];
            assert(ids@.to_set().contains(ids@[i as int]));
            let ghost before = self.keyboards@;
            match self.keyboards.remove(&id) {
                Some(mut keyboard) => {
                    keyboard.pre_update();
                    self.keyboards.insert(id, keyboard);
                },
                None => {},
            }
            assert(self.keyboards@.dom() =~= kb0.dom());
            assert forall|k: u64| #[trigger] kb0.contains_key(k) implies keyboard_views(self.keyboards@)[k]
                == if ids@.take(i + 1).contains(k) { kb0[k].next_frame() } else { kb0[k] } by {
                if k == id {
                    assert(ids@.take(i + 1)[i as int] == k);
                    assert(!ids@.take(i as int).contains(k)) by {
                        if ids@.take(i as int).contains(k) {
                            let j = choose|j: int| 0 <= j < i && #[trigger] ids@.take(i as int)[j] == k;
                            assert(ids@[j] == ids@[i as int]);
                        }
                    }
                } else {
                    assert(self.keyboards@[k] == before[k]);
                    if ids@.take(i + 1).contains(k) {
                        let j = choose|j: int| 0 <= j < i + 1 && #[trigger] ids@.take(i + 1)[j] == k;
                        assert(ids@.take(i as int)[j] == k);
                    }
                    if ids@.take(i as int).contains(k) {
                        let j = choose|j: int| 0 <= j < i && #[trigger] ids@.take(i as int)[j] == k;
                        assert(ids@.take(i + 1)[j] == k);
                    }
                }
            }
            i = i + 1;
        }
        proof {
            assert(ids@.take(ids@.len() as int) =~= ids@);
            assert forall|k: u64| #[trigger] kb0.contains_key(k) implies ids@.contains(k) by {
                assert(ids@.to_set().contains(k));
            }
        }
        pre_update_each(&mut self.mouses);
        assert(self@.keyboards =~= Map::new(
            |k: u64| old(self)@.keyboards.contains_key(k),
            |k: u64| old(self)@.keyboards[k].next_frame(),
        ));
    }
}

impl<M, X> DeviceInputs<M, X> {
    /// Lets unidentified device `device_id`, if it is one, look at `event`;
    /// it is identified when the event shows what it is.
    fn offer_to_mock<E>(&mut self, device_id: u64, event: &E)
        where X: MockInput<E>, M: From<X>,
        requires
            old(self).wf(),
        ensures
            final(self).wf(),
            old(self)@.offered(final(self)@, device_id, *event),
    {
        let ghost v0 = self@;
        match self.mocks.remove(&device_id) {
            Some(mut mock) => {
                let ghost mock0 = mock;
                let found = mock.handle_input(event);
                let ghost next = mock;
                self.mocks.insert(device_id, mock);
                let ghost v1 = self@;
                assert(v0.mocks[device_id] == mock0);
                assert(mock0.takes_in(*event, next, found));
                assert(v1 == DevicesView { mocks: v0.mocks.insert(device_id, next), ..v0 }) by {
                    assert(v1.mocks =~= v0.mocks.insert(device_id, next));
                }
                assert(v1.mocks.dom() =~= v0.mocks.dom());
                assert(v1.keyboards =~= v0.keyboards);
                match found {
                    Some(device_type) => {
                        self.replace_mock(device_id, device_type);
                        assert(v1.mocks.remove(device_id) =~= v0.mocks.remove(device_id));
                        assert(v1.mice.dom() == v0.mice.dom());
                        assert(v1.identified(self@, device_id, device_type));
                    },
                    None => {},
                }
            },
            None => {
                assert(self@.mocks =~= v0.mocks);
                assert(self@ == v0);
            },
        }
    }

    /// Hands an event of device `device_id` to the device that takes it
    /// (see [`DevicesView::routed`]).
    fn route<E>(&mut self, device_id: u64, key: Option<(Option<usize>, ButtonState)>, event: E)
        where M: MouseInput<E>,
        requires
            old(self).wf(),
            key matches Some((Some(code), _)) ==> code < usize::MAX,
        ensures
            final(self).wf(),
            old(self)@.routed(final(self)@, device_id, key, event),
    {
        let ghost v0 = self@;
        if self.keyboards.contains_key(&device_id) {
            match key {
                Some((code, state)) => {
                    match self.keyboards.remove(&device_id) {
                        Some(mut keyboard) => {
                            assert(v0.keyboards.contains_key(device_id));
                            assert(v0.keyboards[device_id] == keyboard@);
                            keyboard.handle_input(code, state);
                            self.keyboards.insert(device_id, keyboard);
                            assert(self.keyboards@.dom() =~= old(self).keyboards@.dom());
                            match code {
                                Some(c) => {
                                    assert(self@.keyboards =~= v0.keyboards.insert(
                                        device_id,
                                        v0.keyboards[device_id].input(c as nat, state),
                                    ));
                                },
                                None => {
                                    assert(self@.keyboards =~= v0.keyboards);
                                },
                            }
                        },
                        None => {},
                    }
                },
                None => {},
            }
        } else {
            assert(!v0.keyboards.contains_key(device_id));
            match self.mouses.remove(&device_id) {
                Some(mut mouse) => {
                    let ghost mouse0 = mouse;
                    mouse.handle_device_input(event);
                    assert(mouse0.takes_device_input(event, mouse));
                    self.mouses.insert(device_id, mouse);
                    assert(self.mouses@.dom() =~= old(self).mouses@.dom());
                },
                None => {
                    assert(self.mouses@ =~= old(self).mouses@);
                },
            }
        }
    }

    /// Takes in an event of device `device_id`: a new device starts out
    /// unidentified, a removed one is forgotten, and any other event is first
    /// shown to the device if it is unidentified, then handed to the keyboard
    /// or mouse it is.
    pub fn handle_input<E>(&mut self, device_id: u64, input: DeviceEvent<E>)
        where X: MockInput<E> + Default, M: MouseInput<E> + From<X>,
        requires
            old(self).wf(),
            input matches DeviceEvent::Key { virtual_keycode: Some(code), .. } ==> code < usize::MAX,
        ensures
            final(self).wf(),
            match input {
                DeviceEvent::Added => {
                    &&& final(self)@.mocks.dom() == old(self)@.mocks.dom().insert(device_id)
                    &&& call_ensures(X::default, (), final(self)@.mocks[device_id])
                    &&& forall|k: u64| k != device_id && #[trigger] old(self)@.mocks.contains_key(k)
                        ==> final(self)@.mocks[k] == old(self)@.mocks[k]
                    &&& final(self)@.keyboards == old(self)@.keyboards
                    &&& final(self)@.mice == old(self)@.mice
                    &&& final(self)@.primary_keyboard == old(self)@.primary_keyboard
                    &&& final(self)@.primary_mouse == old(self)@.primary_mouse
                },
                DeviceEvent::Removed => old(self)@.removed(final(self)@, device_id),
                DeviceEvent::Key { virtual_keycode, state, event } => exists|mid: DevicesView<M, X>|
                    old(self)@.offered(mid, device_id, event) && mid.routed(
                        final(self)@,
                        device_id,
                        Some((virtual_keycode, state)),
                        event,
                    ),
                DeviceEvent::Other(event) => exists|mid: DevicesView<M, X>|
                    old(self)@.offered(mid, device_id, event) && mid.routed(final(self)@, device_id, None, event),
            },
    {
        match input {
            DeviceEvent::Added => {
                self.mocks.insert(device_id, X::default());
                assert(self@.mocks.dom() =~= old(self)@.mocks.dom().insert(device_id));
            },
            DeviceEvent::Removed => self.remove_device(device_id),
            DeviceEvent::Key { virtual_keycode, state, event } => {
                self.offer_to_mock(device_id, &event);
                let ghost mid = self@;
                assert(old(self)@.offered(mid, device_id, event));
                self.route(device_id, Some((virtual_keycode, state)), event);
            },
            DeviceEvent::Other(event) => {
                self.offer_to_mock(device_id, &event);
                let ghost mid = self@;
                assert(old(self)@.offered(mid, device_id, event));
                self.route(device_id, None, event);
            },
        }
    }
}

/// A device identified while no device of its kind has been primary becomes
/// the primary one, so queries naming no device reach it; one identified
/// while another is primary leaves that one primary.
pub proof fn law_first_identified_becomes_primary<M: From<X>, X>(
    v: DevicesView<M, X>,
    w: DevicesView<M, X>,
    device_id: u64,
    device_type: DeviceType,
)
    requires
        v.mocks.contains_key(device_id),
        v.identified(w, device_id, device_type),
    ensures
        device_type == DeviceType::Keyboard ==> w.primary_keyboard == (match v.primary_keyboard {
            Some(p) => Some(p),
            None => Some(device_id),
        }) && w.keyboards.contains_key(device_id),
        device_type == DeviceType::Mouse ==> w.primary_mouse == (match v.primary_mouse {
            Some(p) => Some(p),
            None => Some(device_id),
        }) && w.mice.contains_key(device_id),
        !w.mocks.contains_key(device_id),
{
}

/// Identifying and removing devices, and routing events to them, keep the
/// device tables well formed: the primary devices always exist.
pub proof fn law_changes_keep_primaries<M: From<X>, X>(v: DevicesView<M, X>, w: DevicesView<M, X>, device_id: u64)
    requires
        v.wf(),
    ensures
        v.identified(w, device_id, DeviceType::Keyboard) ==> w.wf(),
        v.identified(w, device_id, DeviceType::Mouse) ==> w.wf(),
        v.removed(w, device_id) ==> w.wf(),
{
    if v.identified(w, device_id, DeviceType::Keyboard) && v.mocks.contains_key(device_id) {
        assert(w.keyboards[device_id] == fresh_keyboard());
    }
    if v.removed(w, device_id) && !v.mocks.contains_key(device_id) && v.keyboards.contains_key(device_id) {
        assert(w.keyboards.dom() =~= v.keyboards.dom().remove(device_id));
    }
}

/// A key event with a key code that reaches a keyboard leaves that key in
/// the event's state, signaled, and known to the keyboard: a press holds it
/// down and a release lets it up. Other keys of that keyboard, the other
/// keyboards and the mice that did not get the event are unchanged.
pub proof fn law_key_event_reaches_its_keyboard<M: MouseInput<E>, X, E>(
    v: DevicesView<M, X>,
    w: DevicesView<M, X>,
    device_id: u64,
    code: usize,
    state: ButtonState,
    event: E,
)
    requires
        v.wf(),
        v.keyboards.contains_key(device_id),
        v.routed(w, device_id, Some((Some(code), state)), event),
    ensures
        w.keyboards.contains_key(device_id),
        w.keyboards[device_id].current[code as int] == state,
        w.keyboards[device_id].pressed(code as int) == (state == ButtonState::Pressed),
        w.keyboards[device_id].released(code as int) == (state == ButtonState::Released),
        w.keyboards[device_id].signaled(code as int),
        forall|k: int|
            0 <= k < v.keyboards[device_id].size && k != code ==> #[trigger] w.keyboards[device_id].current[k]
                == v.keyboards[device_id].current[k],
        forall|other: u64|
            other != device_id && #[trigger] v.keyboards.contains_key(other) ==> w.keyboards.contains_key(other)
                && w.keyboards[other] == v.keyboards[other],
        w.mice == v.mice,
{
    assert(v.keyboards[device_id].exact());
}

/// Removing a device that is in at most one table takes it out of every
/// table: it is no longer unidentified, a keyboard or a mouse, and it is
/// neither the primary keyboard nor the primary mouse. Every other device
/// stays where it was.
pub proof fn law_removed_device_is_gone<M, X>(v: DevicesView<M, X>, w: DevicesView<M, X>, device_id: u64)
    requires
        v.wf(),
        v.removed(w, device_id),
        v.mocks.contains_key(device_id) ==> !v.keyboards.contains_key(device_id) && !v.mice.contains_key(
            device_id,
        ),
        v.keyboards.contains_key(device_id) ==> !v.mice.contains_key(device_id),
    ensures
        !w.mocks.contains_key(device_id),
        !w.keyboards.contains_key(device_id),
        !w.mice.contains_key(device_id),
        w.primary_keyboard != Some(device_id),
        w.primary_mouse != Some(device_id),
        forall|k: u64| k != device_id ==> (#[trigger] w.mocks.contains_key(k) == v.mocks.contains_key(k)),
        forall|k: u64| k != device_id ==> (#[trigger] w.keyboards.contains_key(k) == v.keyboards.contains_key(k)),
        forall|k: u64| k != device_id ==> (#[trigger] w.mice.contains_key(k) == v.mice.contains_key(k)),
{
}

} // verus!
