//! A keyboard table that records key changes as they arrive and settles them
//! at frame boundaries.

use vstd::prelude::*;

pub use crate::input::keyboard::KeyCode;
pub use crate::input::keyboard::KeyState;

verus! {

/// State kept across frames that needs work at each frame boundary.
pub trait GlobalState {
    /// The state may go through a frame boundary.
    spec fn ready(&self) -> bool;

    /// Frame boundary.
    fn pre_update(&mut self)
        requires
            old(self).ready(),
    ;
}

/// The abstract content of a [`Keyboard`].
pub ghost struct KeyboardView {
    pub present: Seq<KeyState>,
    pub prev: Seq<KeyState>,
    pub changed: Seq<usize>,
}

impl KeyboardView {
    /// Every recorded change names an existing key.
    pub open spec fn changes_valid(self) -> bool {
        forall|i: int| 0 <= i < self.changed.len() ==> (#[trigger] self.changed[i]) < KeyCode::LEN
    }

    /// The keyboard after an input event for key `key` going into `state`.
    pub open spec fn input(self, key: usize, state: KeyState) -> KeyboardView {
        KeyboardView {
            present: self.present.update(key as int, state),
            prev: self.prev.update(key as int, self.present[key as int]),
            changed: self.changed.push(key),
        }
    }

    /// The keyboard after a frame boundary.
    pub open spec fn boundary(self) -> KeyboardView {
        KeyboardView {
            present: self.present,
            prev: Seq::new(
                KeyCode::LEN as nat,
                |k: int| if self.changed.contains(k as usize) { self.present[k] } else { self.prev[k] },
            ),
            changed: Seq::empty(),
        }
    }

    /// Every key without a change since the last frame boundary has the same
    /// state in both tables.
    pub open spec fn settled_outside_changes(self) -> bool {
        forall|k: int|
            0 <= k < KeyCode::LEN ==> #[trigger] self.prev[k] == self.present[k] || self.changed.contains(
                k as usize,
            )
    }

    /// The keyboard after the key events `events`, in order.
    pub open spec fn inputs(self, events: Seq<(usize, KeyState)>) -> KeyboardView
        decreases events.len(),
    {
        if events.len() == 0 {
            self
        } else {
            self.inputs(events.drop_last()).input(events.last().0, events.last().1)
        }
    }

    /// The state `key` had just before the last of `events` that names it,
    /// or `None` when none does.
    pub open spec fn state_before_last(self, events: Seq<(usize, KeyState)>, key: int) -> Option<KeyState>
        decreases events.len(),
    {
        if events.len() == 0 {
            None
        } else if events.last().0 == key {
            Some(self.inputs(events.drop_last()).present[key])
        } else {
            self.state_before_last(events.drop_last(), key)
        }
    }

    pub open spec fn pressed(self, key: KeyCode) -> bool {
        self.present[key as int] == KeyState::Pressed
    }

    pub open spec fn released(self, key: KeyCode) -> bool {
        self.present[key as int] == KeyState::Released
    }

    pub open spec fn just_pressed(self, key: KeyCode) -> bool {
        self.present[key as int] == KeyState::Pressed && self.prev[key as int] == KeyState::Released
    }

    pub open spec fn just_released(self, key: KeyCode) -> bool {
        self.present[key as int] == KeyState::Released && self.prev[key as int] == KeyState::Pressed
    }
}

/// Table of every key's state in the present and the previous frame, and
/// the keys changed since the last frame boundary.
pub struct Keyboard {
    present: [KeyState; 163],
    prev: [KeyState; 163],
    changed: Vec<usize>,
}

impl View for Keyboard {
    type V = KeyboardView;

    closed spec fn view(&self) -> KeyboardView {
        KeyboardView { present: self.present@, prev: self.prev@, changed: self.changed@ }
    }
}

impl Keyboard {
    /// Both tables have one slot per key code.
    pub proof fn lemma_table_lengths(&self)
        ensures
            self@.present.len() == KeyCode::LEN,
            self@.prev.len() == KeyCode::LEN,
    {
    }

    /// Every key up in both frames, no change recorded.
    pub fn new() -> (r: Self)
        ensures
            r@.present == Seq::new(KeyCode::LEN as nat, |i: int| KeyState::Released),
            r@.prev == Seq::new(KeyCode::LEN as nat, |i: int| KeyState::Released),
            r@.changed == Seq::<usize>::empty(),
    {
        let r = Keyboard {
            present: [KeyState::Released; 163],
            prev: [KeyState::Released; 163],
            changed: Vec::new(),
        };
        assert(r.present@ =~= Seq::new(KeyCode::LEN as nat, |i: int| KeyState::Released));
        assert(r.prev@ =~= Seq::new(KeyCode::LEN as nat, |i: int| KeyState::Released));
        r
    }

    /// Records a key event: `virtual_keycode` is the number of the key, or
    /// `None` for a key without a code, which is ignored.
    pub fn handle_input(&mut self, virtual_keycode: Option<usize>, state: KeyState)
        requires
            virtual_keycode matches Some(key) ==> key < KeyCode::LEN,
        ensures
            final(self)@ == (match virtual_keycode {
                Some(key) => old(self)@.input(key, state),
                None => old(self)@,
            }),
            old(self)@.changes_valid() ==> final(self)@.changes_valid(),
    {
        if let Some(key) = virtual_keycode {
            self.prev[key] = self.present[key];
            self.present[key] = state;
            self.changed.push(key);
        }
    }

    /// Whether `key` is held down.
    pub fn is_pressed(&self, key: KeyCode) -> (r: bool)
        ensures
            r == self@.pressed(key),
    {
        self.present[key as usize] == KeyState::Pressed
    }

    /// Whether `key` is up.
    pub fn is_released(&self, key: KeyCode) -> (r: bool)
        ensures
            r == self@.released(key),
    {
        self.present[key as usize] == KeyState::Released
    }

    /// Whether `key` is held down now and was up in the previous frame.
    pub fn just_pressed(&self, key: KeyCode) -> (r: bool)
        ensures
            r == self@.just_pressed(key),
    {
        let key = key as usize;
        self.present[key] == KeyState::Pressed && self.prev[key] == KeyState::Released
    }

    /// Whether `key` is up now and was held down in the previous frame.
    pub fn just_released(&self, key: KeyCode) -> (r: bool)
        ensures
            r == self@.just_released(key),
    {
        let key = key as usize;
        self.present[key] == KeyState::Released && self.prev[key] == KeyState::Pressed
    }
}

impl GlobalState for Keyboard {
    open spec fn ready(&self) -> bool {
        self@.changes_valid()
    }

    /// Frame boundary: every changed key gets its present state copied into
    /// the previous table, and the change list is emptied.
    fn pre_update(&mut self)
        ensures
            final(self)@ == old(self)@.boundary(),
    {
        let n = self.changed.len();
        let mut i: usize = 0;
        while i < n
            invariant
                n == self.changed@.len(),
                0 <= i <= n,
                self.changed@ == old(self)@.changed,
                self.present@ == old(self)@.present,
                old(self)@.changes_valid(),
                self.prev@ == Seq::new(
                    KeyCode::LEN as nat,
                    |k: int|
                        if old(self)@.changed.take(i as int).contains(k as usize) {
                            old(self)@.present[k]
                        } else {
                            old(self)@.prev[k]
                        },
                ),
            decreases n - i,
        {
            let key = self.changed[i];
            assert(self.changed@[i as int] < KeyCode::LEN);
            self.prev[key] = self.present[key];
            proof {
                let c = old(self)@.changed;
                assert forall|k: usize| #![trigger c.take(i + 1).contains(k)]
                    c.take(i + 1).contains(k) <==> (c.take(i as int).contains(k) || k == key) by {
                    if c.take(i + 1).contains(k) {
                        let j = choose|j: int| 0 <= j < c.take(i + 1).len() && #[trigger] c.take(i + 1)[j] == k;
                        if j < i {
                            assert(c.take(i as int)[j] == c.take(i + 1)[j]);
                        }
                    }
                    if c.take(i as int).contains(k) {
                        let j = choose|j: int| 0 <= j < c.take(i as int).len() && #[trigger] c.take(i as int)[j] == k;
                        assert(c.take(i + 1)[j] == c.take(i as int)[j]);
                    }
                    if k == key {
                        assert(c.take(i + 1)[i as int] == k);
                    }
                }
            }
            assert(self.prev@ =~= Seq::new(
                KeyCode::LEN as nat,
                |k: int|
                    if old(self)@.changed.take(i + 1).contains(k as usize) {
                        old(self)@.present[k]
                    } else {
                        old(self)@.prev[k]
                    },
            ));
            i = i + 1;
        }
        assert(old(self)@.changed.take(n as int) =~= old(self)@.changed);
        self.changed.clear();
        assert(self@.changed =~= Seq::<usize>::empty());
    }
}

/// A key event makes its key read as in the new state, and reads as just
/// changed exactly when the new state differs from the one it replaced.
pub proof fn law_input_sets_key(v: KeyboardView, key: KeyCode, state: KeyState)
    requires
        v.present.len() == KeyCode::LEN,
        v.prev.len() == KeyCode::LEN,
    ensures
        v.input(key as usize, state).present[key as int] == state,
        v.input(key as usize, state).just_pressed(key) == (state == KeyState::Pressed && v.released(
            key,
        )),
        v.input(key as usize, state).just_released(key) == (state == KeyState::Released
            && v.pressed(key)),
{
}

/// After a frame boundary no key reads as just pressed or just released if
/// it changed during the frame, and keys that did not change keep both states.
pub proof fn law_boundary_settles(v: KeyboardView, key: KeyCode)
    ensures
        v.changed.contains(key as usize) ==> !v.boundary().just_pressed(key)
            && !v.boundary().just_released(key),
        !v.changed.contains(key as usize) ==> v.boundary().present[key as int]
            == v.present[key as int] && v.boundary().prev[key as int] == v.prev[key as int],
        v.boundary().changed.len() == 0,
{
}

/// The keyboard as [`Keyboard::new`] makes it.
pub open spec fn fresh_keyboard_view() -> KeyboardView {
    KeyboardView {
        present: Seq::new(KeyCode::LEN as nat, |i: int| KeyState::Released),
        prev: Seq::new(KeyCode::LEN as nat, |i: int| KeyState::Released),
        changed: Seq::empty(),
    }
}

/// In every keyboard reachable from [`Keyboard::new`] by key events and frame
/// boundaries, a key without a change since the last boundary has the same
/// state in both tables: a new keyboard has it, a key event keeps it, and a
/// frame boundary leaves every key with the same state in both tables.
pub proof fn law_unchanged_keys_are_settled(v: KeyboardView, key: usize, state: KeyState)
    requires
        v.present.len() == KeyCode::LEN,
        v.prev.len() == KeyCode::LEN,
        key < KeyCode::LEN,
    ensures
        fresh_keyboard_view().settled_outside_changes(),
        v.settled_outside_changes() ==> v.input(key, state).settled_outside_changes(),
        v.settled_outside_changes() ==> forall|k: int|
            0 <= k < KeyCode::LEN ==> #[trigger] v.boundary().prev[k] == v.boundary().present[k],
        v.boundary().settled_outside_changes() <== v.settled_outside_changes(),
{
    let w = v.input(key, state);
    if v.settled_outside_changes() {
        assert forall|k: int| 0 <= k < KeyCode::LEN implies #[trigger] w.prev[k] == w.present[k]
            || w.changed.contains(k as usize) by {
            if k == key {
                assert(w.changed[w.changed.len() - 1] == key);
            } else if v.changed.contains(k as usize) {
                let j = choose|j: int| 0 <= j < v.changed.len() && v.changed[j] == k as usize;
                assert(w.changed[j] == v.changed[j]);
            }
        }
    }
}

/// Key events keep one slot per key code in both tables.
proof fn lemma_inputs_keep_lengths(v: KeyboardView, events: Seq<(usize, KeyState)>)
    requires
        v.present.len() == KeyCode::LEN,
        v.prev.len() == KeyCode::LEN,
        forall|i: int| 0 <= i < events.len() ==> (#[trigger] events[i]).0 < KeyCode::LEN,
    ensures
        v.inputs(events).present.len() == KeyCode::LEN,
        v.inputs(events).prev.len() == KeyCode::LEN,
    decreases events.len(),
{
    if events.len() > 0 {
        let init = events.drop_last();
        assert forall|i: int| 0 <= i < init.len() implies (#[trigger] init[i]).0 < KeyCode::LEN by {
            assert(init[i] == events[i]);
        }
        lemma_inputs_keep_lengths(v, init);
        assert(events[events.len() - 1] == events.last());
    }
}

/// After a frame boundary (or from a new keyboard), with every key the same
/// in both tables, and then key events `events`: a key reads as just pressed
/// exactly when it is held down and was up just before the last event that
/// named it, and as just released exactly when it is up and was held down
/// just before that event; a key no event named reads as neither.
pub proof fn law_just_changed_follows_last_event(v: KeyboardView, events: Seq<(usize, KeyState)>, key: KeyCode)
    requires
        v.present.len() == KeyCode::LEN,
        v.prev.len() == KeyCode::LEN,
        forall|k: int| 0 <= k < KeyCode::LEN ==> #[trigger] v.prev[k] == v.present[k],
        forall|i: int| 0 <= i < events.len() ==> (#[trigger] events[i]).0 < KeyCode::LEN,
    ensures
        v.inputs(events).just_pressed(key) == (v.inputs(events).pressed(key) && v.state_before_last(
            events,
            key as int,
        ) == Some(KeyState::Released)),
        v.inputs(events).just_released(key) == (v.inputs(events).released(key) && v.state_before_last(
            events,
            key as int,
        ) == Some(KeyState::Pressed)),
{
    lemma_prev_is_state_before_last(v, events, key as int);
}

proof fn lemma_prev_is_state_before_last(v: KeyboardView, events: Seq<(usize, KeyState)>, k: int)
    requires
        v.present.len() == KeyCode::LEN,
        v.prev.len() == KeyCode::LEN,
        0 <= k < KeyCode::LEN,
        forall|j: int| 0 <= j < KeyCode::LEN ==> #[trigger] v.prev[j] == v.present[j],
        forall|i: int| 0 <= i < events.len() ==> (#[trigger] events[i]).0 < KeyCode::LEN,
    ensures
        v.inputs(events).prev[k] == match v.state_before_last(events, k) {
            Some(s) => s,
            None => v.inputs(events).present[k],
        },
        v.state_before_last(events, k) is None ==> v.inputs(events).present[k] == v.present[k],
    decreases events.len(),
{
    if events.len() == 0 {
        assert(v.prev[k] == v.present[k]);
    } else {
        let init = events.drop_last();
        assert forall|i: int| 0 <= i < init.len() implies (#[trigger] init[i]).0 < KeyCode::LEN by {
            assert(init[i] == events[i]);
        }
        lemma_prev_is_state_before_last(v, init, k);
        lemma_inputs_keep_lengths(v, init);
        assert(events[events.len() - 1] == events.last());
    }
}

} // verus!
