//! A growable table of buttons, each with its state in the present frame,
//! its state in the previous frame and a flag telling whether it was
//! signaled during the present frame.

use vstd::prelude::*;

verus! {

/// Whether a button is held down.
#[derive(Clone, Copy, Debug, PartialEq, Eq, Structural)]
pub enum ButtonState {
    Pressed,
    Released,
}

/// The abstract content of a [`Buttons`] table.
pub ghost struct ButtonsView {
    /// Number of buttons the table considers known.
    pub size: nat,
    /// Whether each button was signaled since the last frame boundary.
    pub signal: Seq<bool>,
    /// State of each button in the present frame.
    pub current: Seq<ButtonState>,
    /// State of each button in the previous frame.
    pub before: Seq<ButtonState>,
}

impl ButtonsView {
    /// Button `index` is known and was signaled in this frame.
    pub open spec fn signaled(self, index: int) -> bool {
        index < self.size && self.signal[index]
    }

    /// Button `index` is known and held down.
    pub open spec fn pressed(self, index: int) -> bool {
        index < self.size && self.current[index] == ButtonState::Pressed
    }

    /// Button `index` is known and up.
    pub open spec fn released(self, index: int) -> bool {
        index < self.size && self.current[index] == ButtonState::Released
    }

    /// Button `index` is known, held down now and was up in the previous frame.
    pub open spec fn just_pressed(self, index: int) -> bool {
        index < self.size && self.current[index] == ButtonState::Pressed
            && self.before[index] == ButtonState::Released
    }

    /// Button `index` is known, up now and was held down in the previous frame.
    pub open spec fn just_released(self, index: int) -> bool {
        index < self.size && self.current[index] == ButtonState::Released
            && self.before[index] == ButtonState::Pressed
    }

    /// The present and previous tables have the same number of slots; every
    /// table built by [`Buttons::new`] and changed by its methods keeps this.
    pub open spec fn wf(self) -> bool {
        self.current.len() == self.before.len()
    }

    /// Every known button has a slot in each of the three tables.
    pub open spec fn well_sized(self) -> bool {
        &&& self.size <= self.signal.len()
        &&& self.size <= self.current.len()
        &&& self.size <= self.before.len()
    }

    /// The table after button `index` went into `state`
    /// (see [`Buttons::handle_input`]).
    pub open spec fn input(self, index: nat, state: ButtonState) -> ButtonsView {
        let grown = index >= self.size;
        let n: nat = if grown { index + 1 } else { self.size };
        let sig = if grown { resized(self.signal, n, false) } else { self.signal };
        let cur = if grown { resized(self.current, n, ButtonState::Released) } else { self.current };
        let bef = if grown { resized(self.before, n, ButtonState::Released) } else { self.before };
        ButtonsView {
            size: n,
            signal: sig.update(index as int, true),
            current: cur.update(index as int, state),
            before: bef,
        }
    }

    /// The table after the inputs `events`, in order: each names a button
    /// and the state it went into.
    pub open spec fn inputs(self, events: Seq<(nat, ButtonState)>) -> ButtonsView
        decreases events.len(),
    {
        if events.len() == 0 {
            self
        } else {
            self.inputs(events.drop_last()).input(events.last().0, events.last().1)
        }
    }

    /// The table after a frame boundary (see [`Buttons::pre_update`]).
    pub open spec fn next_frame(self) -> ButtonsView {
        ButtonsView {
            size: self.size,
            signal: Seq::new(self.size, |i: int| false),
            current: self.current,
            before: self.current,
        }
    }

    /// All three tables have exactly one slot per known button.
    pub open spec fn exact(self) -> bool {
        &&& self.signal.len() == self.size
        &&& self.current.len() == self.size
        &&& self.before.len() == self.size
    }

    /// Reading button `index` touches a slot that exists.
    pub open spec fn readable(self, index: int) -> bool {
        index < self.size ==> {
            &&& index < self.signal.len()
            &&& index < self.current.len()
            &&& index < self.before.len()
        }
    }
}

/// `s` cut or padded with `fill` to exactly `n` items.
pub open spec fn resized<T>(s: Seq<T>, n: nat, fill: T) -> Seq<T> {
    Seq::new(n, |i: int| if i < s.len() { s[i] } else { fill })
}

/// Scanning `indexes` from the front, each index that is reached while
/// `pass` held for all earlier ones lies below `len`.
pub open spec fn scan_in_bounds(indexes: Seq<usize>, len: nat, pass: spec_fn(usize) -> bool) -> bool {
    forall|i: int|
        #![trigger indexes[i]]
        0 <= i < indexes.len() ==> (forall|j: int| 0 <= j < i ==> pass(#[trigger] indexes[j]))
            ==> indexes[i] < len
}

/// The group query over `indexes`: the list is not empty, its last index is
/// a known button, and `pass` holds for every index in it.
pub open spec fn group_holds(indexes: Seq<usize>, size: nat, pass: spec_fn(usize) -> bool) -> bool {
    &&& indexes.len() > 0
    &&& indexes.last() < size
    &&& forall|i: int| 0 <= i < indexes.len() ==> pass(#[trigger] indexes[i])
}

/// A table of buttons addressed by index.
pub struct Buttons {
    signal: Vec<bool>,
    current: Vec<ButtonState>,
    before: Vec<ButtonState>,
    size: usize,
}

impl View for Buttons {
    type V = ButtonsView;

    closed spec fn view(&self) -> ButtonsView {
        ButtonsView {
            size: self.size as nat,
            signal: self.signal@,
            current: self.current@,
            before: self.before@,
        }
    }
}

impl Buttons {
    /// Spec of the signal predicate as a closure, for group queries.
    pub open spec fn signal_pass(v: ButtonsView) -> spec_fn(usize) -> bool {
        |k: usize| v.signal[k as int]
    }

    /// Spec of "in state `s`" as a closure, for group queries.
    pub open spec fn state_pass(v: ButtonsView, s: ButtonState) -> spec_fn(usize) -> bool {
        |k: usize| v.current[k as int] == s
    }

    /// Spec of "changed into `now` from `was`" as a closure, for group queries.
    pub open spec fn change_pass(v: ButtonsView, now: ButtonState, was: ButtonState) -> spec_fn(usize) -> bool {
        |k: usize| v.current[k as int] == now && v.before[k as int] == was
    }

    /// A table of `size` buttons, all up and none signaled.
    pub fn new(size: usize) -> (r: Self)
        ensures
            r@.size == size,
            r@.signal == Seq::new(size as nat, |i: int| false),
            r@.current == Seq::new(size as nat, |i: int| ButtonState::Released),
            r@.before == Seq::new(size as nat, |i: int| ButtonState::Released),
            r@.wf(),
            r@.exact(),
            r@.well_sized(),
    {
        let r = Self {
            signal: vec![false; size],
            current: vec![ButtonState::Released; size],
            before: vec![ButtonState::Released; size],
            size: size,
        };
        assert(r.signal@ =~= Seq::new(size as nat, |i: int| false));
        assert(r.current@ =~= Seq::new(size as nat, |i: int| ButtonState::Released));
        assert(r.before@ =~= Seq::new(size as nat, |i: int| ButtonState::Released));
        r
    }

    /// Records that button `index` went into `state`. An index at or past the
    /// known size grows the table to `index + 1` buttons first.
    pub fn handle_input(&mut self, index: usize, state: ButtonState)
        requires
            index < usize::MAX,
            old(self)@.wf(),
            old(self)@.readable(index as int),
        ensures
            final(self)@ == old(self)@.input(index as nat, state),
            final(self)@.wf(),
            old(self)@.exact() ==> final(self)@.exact(),
            old(self)@.well_sized() ==> final(self)@.well_sized(),
    {
        if index >= self.size {
            let n = index + 1;
            self.size = n;
            let ghost s0 = self.signal@;
            let ghost c0 = self.current@;
            let ghost b0 = self.before@;
            self.signal.resize(n, false);
            self.current.resize(n, ButtonState::Released);
            self.before.resize(n, ButtonState::Released);
            assert(self.signal@ =~= resized(s0, n as nat, false));
            assert(self.current@ =~= resized(c0, n as nat, ButtonState::Released));
            assert(self.before@ =~= resized(b0, n as nat, ButtonState::Released));
        }
        self.signal.set(index, true);
        self.current.set(index, state);
    }

    /// Whether button `index` is known and was signaled in this frame.
    pub fn is_signaled(&self, index: usize) -> (r: bool)
        requires
            self@.readable(index as int),
        ensures
            r == self@.signaled(index as int),
    {
        if index >= self.size {
            return false;
        }
        self.signal[index]
    }

    /// Whether the last of `indexes` is a known button and every listed button
    /// was signaled in this frame.
    pub fn are_signaled(&self, indexes: &[usize]) -> (r: bool)
        requires
            indexes@.len() > 0 && indexes@.last() < self@.size ==> scan_in_bounds(
                indexes@,
                self@.signal.len(),
                Self::signal_pass(self@),
            ),
        ensures
            r == group_holds(indexes@, self@.size, Self::signal_pass(self@)),
    {
        let n = indexes.len();
        if n == 0 {
            return false;
        }
        if !(self.size > indexes[n - 1]) {
            return false;
        }
        let ghost pass = Self::signal_pass(self@);
        let mut i: usize = 0;
        while i < n
            invariant
                n == indexes@.len(),
                0 <= i <= n,
                indexes@.last() < self@.size,
                scan_in_bounds(indexes@, self@.signal.len(), pass),
                pass == Self::signal_pass(self@),
                forall|j: int| 0 <= j < i ==> pass(#[trigger] indexes@[j]),
            decreases n - i,
        {
            let k = indexes[i];
            assert(indexes@[i as int] == k);
            if !self.signal[k] {
                return false;
            }
            i = i + 1;
        }
        true
    }

    /// Whether button `index` is known and held down.
    pub fn is_pressed(&self, index: usize) -> (r: bool)
        requires
            self@.readable(index as int),
        ensures
            r == self@.pressed(index as int),
    {
        if index >= self.size {
            return false;
        }
        self.current[index] == ButtonState::Pressed
    }

    /// Shared scan of the group queries over the present table.
    fn all_in_state(&self, indexes: &[usize], s: ButtonState) -> (r: bool)
        requires
            indexes@.len() > 0 && indexes@.last() < self@.size ==> scan_in_bounds(
                indexes@,
                self@.current.len(),
                Self::state_pass(self@, s),
            ),
        ensures
            r == group_holds(indexes@, self@.size, Self::state_pass(self@, s)),
    {
        let n = indexes.len();
        if n == 0 {
            return false;
        }
        if !(self.size > indexes[n - 1]) {
            return false;
        }
        let ghost pass = Self::state_pass(self@, s);
        let mut i: usize = 0;
        while i < n
            invariant
                n == indexes@.len(),
                0 <= i <= n,
                indexes@.last() < self@.size,
                scan_in_bounds(indexes@, self@.current.len(), pass),
                pass == Self::state_pass(self@, s),
                forall|j: int| 0 <= j < i ==> pass(#[trigger] indexes@[j]),
            decreases n - i,
        {
            let k = indexes[i];
            assert(indexes@[i as int] == k);
            if !(self.current[k] == s) {
                return false;
            }
            i = i + 1;
        }
        true
    }

    /// Shared scan of the change queries over both tables.
    fn all_changed(&self, indexes: &[usize], now: ButtonState, was: ButtonState) -> (r: bool)
        requires
            self@.wf(),
            indexes@.len() > 0 && indexes@.last() < self@.size ==> scan_in_bounds(
                indexes@,
                self@.current.len(),
                Self::change_pass(self@, now, was),
            ),
        ensures
            r == group_holds(indexes@, self@.size, Self::change_pass(self@, now, was)),
    {
        let n = indexes.len();
        if n == 0 {
            return false;
        }
        if !(self.size > indexes[n - 1]) {
            return false;
        }
        let ghost pass = Self::change_pass(self@, now, was);
        let mut i: usize = 0;
        while i < n
            invariant
                n == indexes@.len(),
                0 <= i <= n,
                indexes@.last() < self@.size,
                self@.current.len() == self@.before.len(),
                scan_in_bounds(indexes@, self@.current.len(), pass),
                pass == Self::change_pass(self@, now, was),
                forall|j: int| 0 <= j < i ==> pass(#[trigger] indexes@[j]),
            decreases n - i,
        {
            let k = indexes[i];
            assert(indexes@[i as int] == k);
            if !(self.current[k] == now && self.before[k] == was) {
                return false;
            }
            i = i + 1;
        }
        true
    }

    /// Whether the last of `indexes` is a known button and every listed button
    /// is held down.
    pub fn are_pressed(&self, indexes: &[usize]) -> (r: bool)
        requires
            indexes@.len() > 0 && indexes@.last() < self@.size ==> scan_in_bounds(
                indexes@,
                self@.current.len(),
                Self::state_pass(self@, ButtonState::Pressed),
            ),
        ensures
            r == group_holds(indexes@, self@.size, Self::state_pass(self@, ButtonState::Pressed)),
    {
        self.all_in_state(indexes, ButtonState::Pressed)
    }

    /// Whether button `index` is known and up.
    pub fn is_released(&self, index: usize) -> (r: bool)
        requires
            self@.readable(index as int),
        ensures
            r == self@.released(index as int),
    {
        if index >= self.size {
            return false;
        }
        self.current[index] == ButtonState::Released
    }

    /// Whether the last of `indexes` is a known button and every listed button
    /// is up.
    pub fn are_released(&self, indexes: &[usize]) -> (r: bool)
        requires
            indexes@.len() > 0 && indexes@.last() < self@.size ==> scan_in_bounds(
                indexes@,
                self@.current.len(),
                Self::state_pass(self@, ButtonState::Released),
            ),
        ensures
            r == group_holds(indexes@, self@.size, Self::state_pass(self@, ButtonState::Released)),
    {
        self.all_in_state(indexes, ButtonState::Released)
    }

    /// Whether button `index` is known, held down now and up in the previous frame.
    pub fn is_just_pressed(&self, index: usize) -> (r: bool)
        requires
            self@.readable(index as int),
        ensures
            r == self@.just_pressed(index as int),
    {
        if index >= self.size {
            return false;
        }
        self.current[index] == ButtonState::Pressed && self.before[index] == ButtonState::Released
    }

    /// Whether the last of `indexes` is a known button and every listed button
    /// went down in this frame.
    pub fn are_just_pressed(&self, indexes: &[usize]) -> (r: bool)
        requires
            self@.wf(),
            indexes@.len() > 0 && indexes@.last() < self@.size ==> scan_in_bounds(
                indexes@,
                self@.current.len(),
                Self::change_pass(self@, ButtonState::Pressed, ButtonState::Released),
            ),
        ensures
            r == group_holds(
                indexes@,
                self@.size,
                Self::change_pass(self@, ButtonState::Pressed, ButtonState::Released),
            ),
    {
        self.all_changed(indexes, ButtonState::Pressed, ButtonState::Released)
    }

    /// Whether button `index` is known, up now and held down in the previous frame.
    pub fn is_just_released(&self, index: usize) -> (r: bool)
        requires
            self@.readable(index as int),
        ensures
            r == self@.just_released(index as int),
    {
        if index >= self.size {
            return false;
        }
        self.current[index] == ButtonState::Released && self.before[index] == ButtonState::Pressed
    }

    /// Whether the last of `indexes` is a known button and every listed button
    /// came up in this frame.
    pub fn are_just_released(&self, indexes: &[usize]) -> (r: bool)
        requires
            self@.wf(),
            indexes@.len() > 0 && indexes@.last() < self@.size ==> scan_in_bounds(
                indexes@,
                self@.current.len(),
                Self::change_pass(self@, ButtonState::Released, ButtonState::Pressed),
            ),
        ensures
            r == group_holds(
                indexes@,
                self@.size,
                Self::change_pass(self@, ButtonState::Released, ButtonState::Pressed),
            ),
    {
        self.all_changed(indexes, ButtonState::Released, ButtonState::Pressed)
    }

    /// Frame boundary: clears every signal (one per known button) and makes
    /// the present states the previous ones.
    pub fn pre_update(&mut self)
        ensures
            final(self)@ == old(self)@.next_frame(),
            final(self)@.wf(),
            old(self)@.exact() ==> final(self)@.exact(),
            old(self)@.size <= old(self)@.current.len() ==> final(self)@.well_sized(),
    {
        self.signal = vec![false; self.size];
        self.before = self.current.clone();
        assert(self.signal@ =~= Seq::new(old(self)@.size, |i: int| false));
        assert(self.before@ =~= self.current@);
    }

    /// Cuts or pads all three tables to `new_size` slots; the known size is
    /// left as it is.
    pub fn resize(&mut self, new_size: usize)
        requires
            old(self)@.wf(),
        ensures
            final(self)@.wf(),
            final(self)@.size == old(self)@.size,
            final(self)@.signal == resized(old(self)@.signal, new_size as nat, false),
            final(self)@.current == resized(old(self)@.current, new_size as nat, ButtonState::Released),
            final(self)@.before == resized(old(self)@.before, new_size as nat, ButtonState::Released),
            old(self)@.size <= new_size ==> final(self)@.well_sized(),
    {
        let ghost s0 = self.signal@;
        let ghost c0 = self.current@;
        let ghost b0 = self.before@;
        self.signal.resize(new_size, false);
        self.current.resize(new_size, ButtonState::Released);
        self.before.resize(new_size, ButtonState::Released);
        assert(self.signal@ =~= resized(s0, new_size as nat, false));
        assert(self.current@ =~= resized(c0, new_size as nat, ButtonState::Released));
        assert(self.before@ =~= resized(b0, new_size as nat, ButtonState::Released));
    }
}

/// After a frame boundary no button reads as signaled, just pressed or just
/// released.
pub proof fn law_frame_boundary_settles(v: ButtonsView)
    ensures
        forall|i: int|
            0 <= i ==> {
                &&& !(#[trigger] v.next_frame().signaled(i))
                &&& !v.next_frame().just_pressed(i)
                &&& !v.next_frame().just_released(i)
            },
{
}

/// Recording an input for button `index` makes that button known, signaled
/// and in the recorded state, and leaves every other known button as it was.
pub proof fn law_input_touches_only_its_button(v: ButtonsView, index: nat, state: ButtonState)
    requires
        v.readable(index as int),
    ensures
        v.input(index, state).signaled(index as int),
        v.input(index, state).current[index as int] == state,
        index < v.input(index, state).size,
        v.size <= v.input(index, state).size,
        forall|j: int|
            0 <= j < v.size && j != index && v.readable(j) ==> {
                &&& (#[trigger] v.input(index, state).signal[j]) == v.signal[j]
                &&& v.input(index, state).current[j] == v.current[j]
                &&& v.input(index, state).before[j] == v.before[j]
            },
{
}

/// In a table with one slot per known button, a button pressed after a frame
/// boundary reads as just pressed exactly when it was not held down before the
/// boundary, and a button let go reads as just released exactly when it was
/// held down.
pub proof fn law_press_after_boundary(v: ButtonsView, index: nat)
    requires
        v.exact(),
    ensures
        v.next_frame().input(index, ButtonState::Pressed).just_pressed(index as int) == !v.pressed(
            index as int,
        ),
        v.next_frame().input(index, ButtonState::Released).just_released(index as int)
            == v.pressed(index as int),
{
}

/// Two inputs for the same button within one frame leave it in the state of
/// the later one.
pub proof fn law_later_input_wins(v: ButtonsView, index: nat, first: ButtonState, second: ButtonState)
    requires
        v.readable(index as int),
    ensures
        v.input(index, first).input(index, second).current[index as int] == second,
        v.input(index, first).input(index, second).size == v.input(index, second).size,
{
}

/// Some of `events` names button `index`.
pub open spec fn names(events: Seq<(nat, ButtonState)>, index: int) -> bool
    decreases events.len(),
{
    events.len() > 0 && (events.last().0 == index || names(events.drop_last(), index))
}

/// In a table with one slot per known button and none signaled (a new
/// table, or any such table after a frame boundary), and then the inputs
/// `events`: a button reads as signaled exactly when some input since then
/// named it.
pub proof fn law_signaled_iff_input_since_boundary(u: ButtonsView, events: Seq<(nat, ButtonState)>, index: nat)
    requires
        u.exact(),
        forall|i: int| 0 <= i < u.size ==> !#[trigger] u.signaled(i),
    ensures
        u.inputs(events).signaled(index as int) == names(events, index as int),
{
    assert forall|i: int| 0 <= i < u.size implies !(#[trigger] u.signal[i]) by {
        assert(!u.signaled(i));
    }
    lemma_signals_follow_inputs(u, events);
    let w = u.inputs(events);
    if index < w.size {
        assert(w.signal[index as int] == names(events, index as int));
    } else {
        assert(!names(events, index as int));
    }
}

/// A frame boundary keeps one slot per known button and signals none.
pub proof fn law_boundary_clears_signals(v: ButtonsView)
    requires
        v.exact(),
    ensures
        v.next_frame().exact(),
        forall|i: int| 0 <= i < v.next_frame().size ==> !#[trigger] v.next_frame().signaled(i),
{
}

proof fn lemma_signals_follow_inputs(u: ButtonsView, events: Seq<(nat, ButtonState)>)
    requires
        u.exact(),
        forall|i: int| 0 <= i < u.size ==> !(#[trigger] u.signal[i]),
    ensures
        u.inputs(events).exact(),
        u.size <= u.inputs(events).size,
        forall|i: int| 0 <= i < u.inputs(events).size ==> (#[trigger] u.inputs(events).signal[i] <==> names(events, i)),
        forall|i: int| #[trigger] names(events, i) ==> 0 <= i < u.inputs(events).size,
    decreases events.len(),
{
    if events.len() > 0 {
        let init = events.drop_last();
        lemma_signals_follow_inputs(u, init);
        let w = u.inputs(init);
        let (index, state) = events.last();
        let x = w.input(index, state);
        assert(u.inputs(events) == x);
        assert forall|i: int| 0 <= i < x.size implies (#[trigger] x.signal[i] <==> names(events, i)) by {
            if i != index {
                assert(names(events, i) == names(init, i));
                if i >= w.size {
                    assert(!names(init, i));
                }
            }
        }
        assert forall|i: int| #[trigger] names(events, i) implies 0 <= i < x.size by {
            if i != index {
                assert(names(init, i));
            }
        }
    } else {
        assert forall|i: int| 0 <= i < u.size implies (#[trigger] u.signal[i] <==> names(events, i)) by {}
    }
}

} // verus!
