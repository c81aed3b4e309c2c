//! Keyboard tables shared by the whole program: the state of every key in the
//! present and the previous frame, and the key events queued since the last
//! frame boundary.

use vstd::prelude::*;
use vstd::std_specs::convert::FromSpecImpl;

verus! {

/// A keyboard key, numbered from 0 in the order listed.
#[derive(Clone, Copy, Debug, PartialEq, Eq, Structural)]
pub enum KeyCode {
    Key1,
    Key2,
    Key3,
    Key4,
    Key5,
    Key6,
    Key7,
    Key8,
    Key9,
    Key0,
    A,
    B,
    C,
    D,
    E,
    F,
    G,
    H,
    I,
    J,
    K,
    L,
    M,
    N,
    O,
    P,
    Q,
    R,
    S,
    T,
    U,
    V,
    W,
    X,
    Y,
    Z,
    Escape,
    F1,
    F2,
    F3,
    F4,
    F5,
    F6,
    F7,
    F8,
    F9,
    F10,
    F11,
    F12,
    F13,
    F14,
    F15,
    F16,
    F17,
    F18,
    F19,
    F20,
    F21,
    F22,
    F23,
    F24,
    Snapshot,
    Scroll,
    Pause,
    Insert,
    Home,
    Delete,
    End,
    PageDown,
    PageUp,
    Left,
    Up,
    Right,
    Down,
    Back,
    Return,
    Space,
    Compose,
    Caret,
    Numlock,
    Numpad0,
    Numpad1,
    Numpad2,
    Numpad3,
    Numpad4,
    Numpad5,
    Numpad6,
    Numpad7,
    Numpad8,
    Numpad9,
    NumpadAdd,
    NumpadDivide,
    NumpadDecimal,
    NumpadComma,
    NumpadEnter,
    NumpadEquals,
    NumpadMultiply,
    NumpadSubtract,
    AbntC1,
    AbntC2,
    Apostrophe,
    Apps,
    Asterisk,
    At,
    Ax,
    Backslash,
    Calculator,
    Capital,
    Colon,
    Comma,
    Convert,
    Equals,
    Grave,
    Kana,
    Kanji,
    LAlt,
    LBracket,
    LControl,
    LShift,
    LWin,
    Mail,
    MediaSelect,
    MediaStop,
    Minus,
    Mute,
    MyComputer,
    NavigateForward,
    NavigateBackward,
    NextTrack,
    NoConvert,
    OEM102,
    Period,
    PlayPause,
    Plus,
    Power,
    PrevTrack,
    RAlt,
    RBracket,
    RControl,
    RShift,
    RWin,
    Semicolon,
    Slash,
    Sleep,
    Stop,
    Sysrq,
    Tab,
    Underline,
    Unlabeled,
    VolumeDown,
    VolumeUp,
    Wake,
    WebBack,
    WebFavorites,
    WebForward,
    WebHome,
    WebRefresh,
    WebSearch,
    WebStop,
    Yen,
    Copy,
    Paste,
    Cut,
}

impl KeyCode {
    /// Number of key codes.
    pub const LEN: usize = 163;
}

/// The number of a key code.
pub open spec fn key_index(key: KeyCode) -> int {
    key as int
}

impl From<KeyCode> for usize {
    fn from(key: KeyCode) -> (r: usize) {
        key as usize
    }
}

impl FromSpecImpl<KeyCode> for usize {
    open spec fn obeys_from_spec() -> bool {
        true
    }

    open spec fn from_spec(v: KeyCode) -> usize {
        v as usize
    }
}

/// Whether a key is held down.
#[derive(Clone, Copy, Debug, PartialEq, Eq, Structural)]
pub enum KeyState {
    Pressed,
    Released,
}

/// The tables after applying key `events` in order, starting from `present`
/// and `previous`: each event moves its key's present state into the
/// previous table and sets the new present state.
pub open spec fn apply_events(
    present: Seq<KeyState>,
    previous: Seq<KeyState>,
    events: Seq<(usize, KeyState)>,
) -> (Seq<KeyState>, Seq<KeyState>)
    decreases events.len(),
{
    if events.len() == 0 {
        (present, previous)
    } else {
        let (p, q) = apply_events(present, previous, events.drop_last());
        let (key, state) = events.last();
        (p.update(key as int, state), q.update(key as int, p[key as int]))
    }
}

/// The state carried by the last of `events` for `key`, if any.
pub open spec fn last_state(events: Seq<(usize, KeyState)>, key: int) -> Option<KeyState>
    decreases events.len(),
{
    if events.len() == 0 {
        None
    } else if events.last().0 == key {
        Some(events.last().1)
    } else {
        last_state(events.drop_last(), key)
    }
}

/// Some event in `events` is for `key`.
pub open spec fn mentions(events: Seq<(usize, KeyState)>, key: int) -> bool {
    exists|i: int| 0 <= i < events.len() && (#[trigger] events[i]).0 == key
}

/// The abstract content of [`KeyTables`].
pub ghost struct KeyTablesView {
    pub present: Seq<KeyState>,
    pub previous: Seq<KeyState>,
    pub queue: Seq<(usize, KeyState)>,
}

impl KeyTablesView {
    /// Every queued event names an existing key.
    pub open spec fn queue_valid(self) -> bool {
        forall|i: int| 0 <= i < self.queue.len() ==> (#[trigger] self.queue[i]).0 < KeyCode::LEN
    }

    /// The tables after a frame boundary (see [`KeyTables::pre_update`]).
    pub open spec fn boundary(self) -> KeyTablesView {
        KeyTablesView {
            present: self.present,
            previous: Seq::new(
                KeyCode::LEN as nat,
                |k: int| if mentions(self.queue, k) { self.present[k] } else { self.previous[k] },
            ),
            queue: Seq::empty(),
        }
    }

    /// The tables after the queued events are applied (see [`KeyTables::update`]).
    pub open spec fn applied(self) -> KeyTablesView {
        let (p, q) = apply_events(self.present, self.previous, self.queue);
        KeyTablesView { present: p, previous: q, queue: self.queue }
    }

    pub open spec fn pressed(self, key: KeyCode) -> bool {
        self.present[key as int] == KeyState::Pressed
    }

    pub open spec fn released(self, key: KeyCode) -> bool {
        self.present[key as int] == KeyState::Released
    }

    pub open spec fn just_pressed(self, key: KeyCode) -> bool {
        self.present[key as int] == KeyState::Pressed && self.previous[key as int] == KeyState::Released
    }

    pub open spec fn just_released(self, key: KeyCode) -> bool {
        self.present[key as int] == KeyState::Released && self.previous[key as int] == KeyState::Pressed
    }
}

/// The present and previous state of every key, and the queue of key events
/// not yet drained by a frame boundary.
pub struct KeyTables {
    present: [KeyState; 163],
    previous: [KeyState; 163],
    queue: Vec<(usize, KeyState)>,
}

impl View for KeyTables {
    type V = KeyTablesView;

    closed spec fn view(&self) -> KeyTablesView {
        KeyTablesView { present: self.present@, previous: self.previous@, queue: self.queue@ }
    }
}

impl KeyTables {
    /// Both tables of a keyboard have one slot per key code.
    pub proof fn lemma_table_lengths(&self)
        ensures
            self@.present.len() == KeyCode::LEN,
            self@.previous.len() == KeyCode::LEN,
    {
    }

    /// Every key up in both frames, nothing queued.
    pub fn init() -> (r: Self)
        ensures
            r@.present == Seq::new(KeyCode::LEN as nat, |i: int| KeyState::Released),
            r@.previous == Seq::new(KeyCode::LEN as nat, |i: int| KeyState::Released),
            r@.queue == Seq::<(usize, KeyState)>::empty(),
    {
        let r = KeyTables {
            present: [KeyState::Released; 163],
            previous: [KeyState::Released; 163],
            queue: Vec::with_capacity(4),
        };
        assert(r.present@ =~= Seq::new(KeyCode::LEN as nat, |i: int| KeyState::Released));
        assert(r.previous@ =~= Seq::new(KeyCode::LEN as nat, |i: int| KeyState::Released));
        r
    }

    /// Frame boundary: every key with a queued event gets its present state
    /// copied into the previous table, and the queue is emptied.
    pub fn pre_update(&mut self)
        requires
            old(self)@.queue_valid(),
        ensures
            final(self)@ == old(self)@.boundary(),
    {
        let n = self.queue.len();
        let mut i: usize = 0;
        while i < n
            invariant
                n == self.queue@.len(),
                0 <= i <= n,
                self.queue@ == old(self)@.queue,
                self.present@ == old(self)@.present,
                old(self)@.queue_valid(),
                self.previous@ == Seq::new(
                    KeyCode::LEN as nat,
                    |k: int|
                        if mentions(old(self)@.queue.take(i as int), k) {
                            old(self)@.present[k]
                        } else {
                            old(self)@.previous[k]
                        },
                ),
            decreases n - i,
        {
            let key = self.queue[i].0;
            assert(self.queue@[i as int].0 < KeyCode::LEN);
            self.previous[key] = self.present[key];
            proof {
                let q = old(self)@.queue;
                assert forall|k: int| #![trigger mentions(q.take(i + 1), k)]
                    mentions(q.take(i + 1), k) <==> (mentions(q.take(i as int), k) || k == key) by {
                    if mentions(q.take(i + 1), k) {
                        let j = choose|j: int| 0 <= j < q.take(i + 1).len() && (#[trigger] q.take(i + 1)[j]).0 == k;
                        if j < i {
                            assert(q.take(i as int)[j] == q.take(i + 1)[j]);
                        }
                    }
                    if mentions(q.take(i as int), k) {
                        let j = choose|j: int| 0 <= j < q.take(i as int).len() && (#[trigger] q.take(i as int)[j]).0 == k;
                        assert(q.take(i + 1)[j] == q.take(i as int)[j]);
                    }
                    if k == key {
                        assert(q.take(i + 1)[i as int].0 == k);
                    }
                }
            }
            assert(self.previous@ =~= Seq::new(
                KeyCode::LEN as nat,
                |k: int|
                    if mentions(old(self)@.queue.take(i + 1), k) {
                        old(self)@.present[k]
                    } else {
                        old(self)@.previous[k]
                    },
            ));
            i = i + 1;
        }
        assert(old(self)@.queue.take(n as int) =~= old(self)@.queue);
        self.queue.clear();
        assert(self@.queue =~= Seq::<(usize, KeyState)>::empty());
    }

    /// Queues a key event for the next [`KeyTables::update`].
    pub fn enqueue(&mut self, key: usize, state: KeyState)
        ensures
            final(self)@.present == old(self)@.present,
            final(self)@.previous == old(self)@.previous,
            final(self)@.queue == old(self)@.queue.push((key, state)),
    {
        self.queue.push((key, state));
    }

    /// Applies the queued events in order; the queue itself is kept until
    /// the next frame boundary.
    pub fn update(&mut self)
        requires
            old(self)@.queue_valid(),
        ensures
            final(self)@ == old(self)@.applied(),
    {
        let n = self.queue.len();
        let mut i: usize = 0;
        while i < n
            invariant
                n == self.queue@.len(),
                0 <= i <= n,
                self.queue@ == old(self)@.queue,
                old(self)@.queue_valid(),
                (self.present@, self.previous@) == apply_events(
                    old(self)@.present,
                    old(self)@.previous,
                    old(self)@.queue.take(i as int),
                ),
            decreases n - i,
        {
            let (key, state) = self.queue[i];
            assert(self.queue@[i as int].0 < KeyCode::LEN);
            assert(old(self)@.queue.take(i + 1).drop_last() =~= old(self)@.queue.take(i as int));
            self.previous[key] = self.present[key];
            self.present[key] = state;
            i = i + 1;
        }
        assert(old(self)@.queue.take(n as int) =~= old(self)@.queue);
    }
}

/// Applying events keeps one slot per key in both tables.
pub proof fn lemma_apply_keeps_lengths(
    present: Seq<KeyState>,
    previous: Seq<KeyState>,
    events: Seq<(usize, KeyState)>,
)
    requires
        present.len() == KeyCode::LEN,
        previous.len() == KeyCode::LEN,
        forall|i: int| 0 <= i < events.len() ==> (#[trigger] events[i]).0 < KeyCode::LEN,
    ensures
        apply_events(present, previous, events).0.len() == present.len(),
        apply_events(present, previous, events).1.len() == previous.len(),
    decreases events.len(),
{
    if events.len() > 0 {
        let init = events.drop_last();
        assert forall|i: int| 0 <= i < init.len() implies (#[trigger] init[i]).0 < KeyCode::LEN by {
            assert(init[i] == events[i]);
        }
        lemma_apply_keeps_lengths(present, previous, init);
        assert(events[events.len() - 1].0 < KeyCode::LEN);
    }
}

/// After the queued events are applied, each key holds the state of the last
/// event queued for it, and a key with no queued event keeps both its present
/// and its previous state.
pub proof fn law_last_event_wins(v: KeyTablesView, key: KeyCode)
    requires
        v.present.len() == KeyCode::LEN,
        v.previous.len() == KeyCode::LEN,
        v.queue_valid(),
    ensures
        v.applied().present[key as int] == (match last_state(v.queue, key as int) {
            Some(s) => s,
            None => v.present[key as int],
        }),
        !mentions(v.queue, key as int) ==> v.applied().present[key as int] == v.present[key as int]
            && v.applied().previous[key as int] == v.previous[key as int],
{
    lemma_last_event_wins_rec(v.present, v.previous, v.queue, key as int);
}

pub(crate) proof fn lemma_last_event_wins_rec(
    present: Seq<KeyState>,
    previous: Seq<KeyState>,
    events: Seq<(usize, KeyState)>,
    k: int,
)
    requires
        present.len() == KeyCode::LEN,
        previous.len() == KeyCode::LEN,
        0 <= k < KeyCode::LEN,
        forall|i: int| 0 <= i < events.len() ==> (#[trigger] events[i]).0 < KeyCode::LEN,
    ensures
        apply_events(present, previous, events).0[k] == (match last_state(events, k) {
            Some(s) => s,
            None => present[k],
        }),
        !mentions(events, k) ==> apply_events(present, previous, events).0[k] == present[k]
            && apply_events(present, previous, events).1[k] == previous[k],
    decreases events.len(),
{
    if events.len() > 0 {
        let init = events.drop_last();
        assert forall|i: int| 0 <= i < init.len() implies (#[trigger] init[i]).0 < KeyCode::LEN by {
            assert(init[i] == events[i]);
        }
        lemma_last_event_wins_rec(present, previous, init, k);
        lemma_apply_keeps_lengths(present, previous, init);
        assert(events[events.len() - 1].0 < KeyCode::LEN);
        if !mentions(events, k) {
            assert(events.last().0 != k) by {
                assert(events[events.len() - 1] == events.last());
            }
            if mentions(init, k) {
                let j = choose|j: int| 0 <= j < init.len() && (#[trigger] init[j]).0 == k;
                assert(events[j] == init[j]);
            }
        }
    }
}

/// The state carried by the event for `key` before the last one in
/// `events`, if there are two or more events for it.
pub open spec fn state_before_last_event(events: Seq<(usize, KeyState)>, key: int) -> Option<KeyState>
    decreases events.len(),
{
    if events.len() == 0 {
        None
    } else if events.last().0 == key {
        last_state(events.drop_last(), key)
    } else {
        state_before_last_event(events.drop_last(), key)
    }
}

/// After the queued events are applied, the previous state of a key with
/// queued events is the state it had just before the last of them: the state
/// of the event for it before that one, or its present state before any was
/// applied when there is only one; a key without queued events keeps its
/// previous state. So a last queued event that repeats the state its key
/// had just before never makes it read as just pressed or just released.
pub proof fn law_previous_is_state_before_last_event(v: KeyTablesView, key: KeyCode)
    requires
        v.present.len() == KeyCode::LEN,
        v.previous.len() == KeyCode::LEN,
        v.queue_valid(),
    ensures
        v.applied().previous[key as int] == (match state_before_last_event(v.queue, key as int) {
            Some(s) => s,
            None => if mentions(v.queue, key as int) {
                v.present[key as int]
            } else {
                v.previous[key as int]
            },
        }),
        mentions(v.queue, key as int) && (match state_before_last_event(v.queue, key as int) {
            Some(s) => s,
            None => v.present[key as int],
        }) == (match last_state(v.queue, key as int) {
            Some(s) => s,
            None => v.present[key as int],
        }) ==> !v.applied().just_pressed(key) && !v.applied().just_released(key),
{
    lemma_previous_rec(v.present, v.previous, v.queue, key as int);
    lemma_last_event_wins_rec(v.present, v.previous, v.queue, key as int);
}

proof fn lemma_previous_rec(
    present: Seq<KeyState>,
    previous: Seq<KeyState>,
    events: Seq<(usize, KeyState)>,
    k: int,
)
    requires
        present.len() == KeyCode::LEN,
        previous.len() == KeyCode::LEN,
        0 <= k < KeyCode::LEN,
        forall|i: int| 0 <= i < events.len() ==> (#[trigger] events[i]).0 < KeyCode::LEN,
    ensures
        apply_events(present, previous, events).1[k] == (match state_before_last_event(events, k) {
            Some(s) => s,
            None => if mentions(events, k) {
                present[k]
            } else {
                previous[k]
            },
        }),
        state_before_last_event(events, k) is Some ==> mentions(events, k),
    decreases events.len(),
{
    if events.len() > 0 {
        let init = events.drop_last();
        assert forall|i: int| 0 <= i < init.len() implies (#[trigger] init[i]).0 < KeyCode::LEN by {
            assert(init[i] == events[i]);
        }
        lemma_previous_rec(present, previous, init, k);
        lemma_last_event_wins_rec(present, previous, init, k);
        lemma_apply_keeps_lengths(present, previous, init);
        assert(events[events.len() - 1] == events.last());
        assert(events.last().0 < KeyCode::LEN);
        if events.last().0 == k {
            assert(mentions(events, k));
        } else {
            if mentions(init, k) {
                let j = choose|j: int| 0 <= j < init.len() && (#[trigger] init[j]).0 == k;
                assert(events[j] == init[j]);
            }
            if mentions(events, k) {
                let j = choose|j: int| 0 <= j < events.len() && (#[trigger] events[j]).0 == k;
                assert(init[j] == events[j]);
            }
        }
    }
}

/// After a frame boundary no key with a queued event reads as just pressed
/// or just released, and the queue is empty.
pub proof fn law_boundary_settles_queued_keys(v: KeyTablesView, key: KeyCode)
    requires
        mentions(v.queue, key as int),
    ensures
        !v.boundary().just_pressed(key),
        !v.boundary().just_released(key),
        v.boundary().queue.len() == 0,
{
}

/// A frame in which the only queued event is `key` going down, starting from
/// `key` being up, leaves `key` reading as just pressed.
pub proof fn law_single_press_is_just_pressed(v: KeyTablesView, key: KeyCode)
    requires
        v.present.len() == KeyCode::LEN,
        v.previous.len() == KeyCode::LEN,
        v.released(key),
        v.queue == seq![(key as usize, KeyState::Pressed)],
    ensures
        v.applied().just_pressed(key),
{
    let e = v.queue;
    assert(e.drop_last() =~= Seq::<(usize, KeyState)>::empty());
    reveal_with_fuel(apply_events, 2);
}

/// Whether `key` is held down.
pub fn is_pressed(tables: &KeyTables, key: KeyCode) -> (r: bool)
    ensures
        r == tables@.pressed(key),
{
    tables.present[key as usize] == KeyState::Pressed
}

/// Whether every key in `keys` is held down.
pub fn are_pressed(tables: &KeyTables, keys: &[KeyCode]) -> (r: bool)
    ensures
        r == forall|i: int| 0 <= i < keys@.len() ==> tables@.pressed(#[trigger] keys@[i]),
{
    let mut i: usize = 0;
    while i < keys.len()
        invariant
            0 <= i <= keys@.len(),
            forall|j: int| 0 <= j < i ==> tables@.pressed(#[trigger] keys@[j]),
        decreases keys@.len() - i,
    {
        if !is_pressed(tables, keys[i]) {
            return false;
        }
        i = i + 1;
    }
    true
}

/// Whether `key` is up.
pub fn is_released(tables: &KeyTables, key: KeyCode) -> (r: bool)
    ensures
        r == tables@.released(key),
{
    tables.present[key as usize] == KeyState::Released
}

/// Whether every key in `keys` is up.
pub fn are_released(tables: &KeyTables, keys: &[KeyCode]) -> (r: bool)
    ensures
        r == forall|i: int| 0 <= i < keys@.len() ==> tables@.released(#[trigger] keys@[i]),
{
    let mut i: usize = 0;
    while i < keys.len()
        invariant
            0 <= i <= keys@.len(),
            forall|j: int| 0 <= j < i ==> tables@.released(#[trigger] keys@[j]),
        decreases keys@.len() - i,
    {
        if !is_released(tables, keys[i]) {
            return false;
        }
        i = i + 1;
    }
    true
}

/// Whether `key` is held down now and was up in the previous frame.
pub fn is_just_pressed(tables: &KeyTables, key: KeyCode) -> (r: bool)
    ensures
        r == tables@.just_pressed(key),
{
    let key = key as usize;
    tables.present[key] == KeyState::Pressed && tables.previous[key] == KeyState::Released
}

/// Whether every key in `keys` went down in this frame.
pub fn are_just_pressed(tables: &KeyTables, keys: &[KeyCode]) -> (r: bool)
    ensures
        r == forall|i: int| 0 <= i < keys@.len() ==> tables@.just_pressed(#[trigger] keys@[i]),
{
    let mut i: usize = 0;
    while i < keys.len()
        invariant
            0 <= i <= keys@.len(),
            forall|j: int| 0 <= j < i ==> tables@.just_pressed(#[trigger] keys@[j]),
        decreases keys@.len() - i,
    {
        if !is_just_pressed(tables, keys[i]) {
            return false;
        }
        i = i + 1;
    }
    true
}

/// Whether `key` is up now and was held down in the previous frame.
pub fn is_just_released(tables: &KeyTables, key: KeyCode) -> (r: bool)
    ensures
        r == tables@.just_released(key),
{
    let key = key as usize;
    tables.present[key] == KeyState::Released && tables.previous[key] == KeyState::Pressed
}

/// Whether every key in `keys` came up in this frame.
pub fn are_just_released(tables: &KeyTables, keys: &[KeyCode]) -> (r: bool)
    ensures
        r == forall|i: int| 0 <= i < keys@.len() ==> tables@.just_released(#[trigger] keys@[i]),
{
    let mut i: usize = 0;
    while i < keys.len()
        invariant
            0 <= i <= keys@.len(),
            forall|j: int| 0 <= j < i ==> tables@.just_released(#[trigger] keys@[j]),
        decreases keys@.len() - i,
    {
        if !is_just_released(tables, keys[i]) {
            return false;
        }
        i = i + 1;
    }
    true
}

} // verus!
