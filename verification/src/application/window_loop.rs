//! The single-window event loop that drives the global key tables: what it
//! does for each event, and what a round of events does to the tables.

use vstd::prelude::*;

use crate::input::keyboard::{
    last_state, lemma_apply_keeps_lengths, lemma_last_event_wins_rec, mentions, KeyCode, KeyState, KeyTables,
    KeyTablesView,
};

verus! {

/// An event of the application's window or of another one, as plain values.
#[derive(Clone, Copy, Debug, PartialEq, Eq, Structural)]
pub enum WindowInput {
    Resized { width: u32, height: u32 },
    CloseRequested,
    /// A key event: `virtual_keycode` is the key's number, if it has one.
    Key { virtual_keycode: Option<usize>, state: KeyState },
    ScaleFactorChanged { width: u32, height: u32 },
    /// Any other window event.
    Other,
}

/// An event of the loop, as plain values.
#[derive(Clone, Copy, Debug, PartialEq, Eq, Structural)]
pub enum WindowLoopEvent {
    /// The loop started.
    Init,
    /// A round of events started by polling.
    Poll,
    /// A round of events started for another cause.
    OtherStart,
    /// An event of a window; `own` tells whether it is the application's.
    Window { own: bool, input: WindowInput },
    DeviceEvent,
    UserEvent,
    Suspended,
    Resumed,
    /// All events of the round were delivered.
    MainEventsCleared,
    RedrawRequested,
    RedrawEventsCleared,
    /// The loop is about to end.
    LoopDestroyed,
}

/// One thing the loop does.
#[derive(Clone, Copy, Debug, PartialEq, Eq, Structural)]
pub enum WindowStep {
    /// Start the clock.
    InitClock,
    /// Set every key up, with nothing queued.
    InitKeyTables,
    EnterScene,
    /// Measure the time of the new frame.
    UpdateClock,
    /// Frame boundary of the key tables ([`KeyTables::pre_update`]).
    SettleKeyTables,
    ResizeSurface { width: u32, height: u32 },
    RequestExit,
    /// Queue a key event ([`KeyTables::enqueue`]).
    EnqueueKey { key: usize, state: KeyState },
    /// Apply the queued key events ([`KeyTables::update`]).
    ApplyKeyTables,
    /// Acquire the surface texture to draw on.
    UpdateSurface,
    UpdateScene,
    DrawScene,
    RequestRedraw,
    /// Draw the batch and present it.
    Present,
    FinishScene,
    /// Release the key tables.
    DropKeyTables,
    /// Release the clock.
    DropClock,
}

/// The steps for an event of the application's own window.
pub open spec fn input_steps(input: WindowInput) -> Seq<WindowStep> {
    match input {
        WindowInput::Resized { width, height } => seq![WindowStep::ResizeSurface { width, height }],
        WindowInput::CloseRequested => seq![WindowStep::RequestExit],
        WindowInput::Key { virtual_keycode, state } => match virtual_keycode {
            Some(key) => seq![WindowStep::EnqueueKey { key, state }],
            None => Seq::empty(),
        },
        WindowInput::ScaleFactorChanged { width, height } => seq![WindowStep::ResizeSurface { width, height }],
        WindowInput::Other => Seq::empty(),
    }
}

/// The steps for `event`, in order: start-up starts the clock and the key
/// tables and enters the scene; a polled round measures the time and
/// settles the key tables; events of other windows are ignored; the end of
/// a round's events applies the queued keys, then updates and draws; a
/// redraw presents; the end of the loop finishes the scene and releases the
/// tables and the clock.
pub open spec fn steps_for(event: WindowLoopEvent) -> Seq<WindowStep> {
    match event {
        WindowLoopEvent::Init => seq![WindowStep::InitClock, WindowStep::InitKeyTables, WindowStep::EnterScene],
        WindowLoopEvent::Poll => seq![WindowStep::UpdateClock, WindowStep::SettleKeyTables],
        WindowLoopEvent::Window { own, input } => if own {
            input_steps(input)
        } else {
            Seq::empty()
        },
        WindowLoopEvent::MainEventsCleared => seq![
            WindowStep::ApplyKeyTables,
            WindowStep::UpdateSurface,
            WindowStep::UpdateScene,
            WindowStep::DrawScene,
            WindowStep::RequestRedraw,
        ],
        WindowLoopEvent::RedrawRequested => seq![WindowStep::Present],
        WindowLoopEvent::LoopDestroyed => seq![
            WindowStep::FinishScene,
            WindowStep::DropKeyTables,
            WindowStep::DropClock,
        ],
        _ => Seq::empty(),
    }
}

/// The steps for `event`, in order.
pub fn window_loop_steps(event: WindowLoopEvent) -> (r: Vec<WindowStep>)
    ensures
        r@ == steps_for(event),
{
    let mut steps: Vec<WindowStep> = Vec::new();
    match event {
        WindowLoopEvent::Init => {
            steps.push(WindowStep::InitClock);
            steps.push(WindowStep::InitKeyTables);
            steps.push(WindowStep::EnterScene);
        },
        WindowLoopEvent::Poll => {
            steps.push(WindowStep::UpdateClock);
            steps.push(WindowStep::SettleKeyTables);
        },
        WindowLoopEvent::Window { own, input } => {
            if own {
                match input {
                    WindowInput::Resized { width, height } => {
                        steps.push(WindowStep::ResizeSurface { width, height });
                    },
                    WindowInput::CloseRequested => {
                        steps.push(WindowStep::RequestExit);
                    },
                    WindowInput::Key { virtual_keycode, state } => {
                        if let Some(key) = virtual_keycode {
                            steps.push(WindowStep::EnqueueKey { key, state });
                        }
                    },
                    WindowInput::ScaleFactorChanged { width, height } => {
                        steps.push(WindowStep::ResizeSurface { width, height });
                    },
                    WindowInput::Other => {},
                }
            }
        },
        WindowLoopEvent::MainEventsCleared => {
            steps.push(WindowStep::ApplyKeyTables);
            steps.push(WindowStep::UpdateSurface);
            steps.push(WindowStep::UpdateScene);
            steps.push(WindowStep::DrawScene);
            steps.push(WindowStep::RequestRedraw);
        },
        WindowLoopEvent::RedrawRequested => {
            steps.push(WindowStep::Present);
        },
        WindowLoopEvent::LoopDestroyed => {
            steps.push(WindowStep::FinishScene);
            steps.push(WindowStep::DropKeyTables);
            steps.push(WindowStep::DropClock);
        },
        _ => {},
    }
    assert(steps@ =~= steps_for(event));
    steps
}

/// Only a close request of the application's own window asks for a stop.
/// Events of other windows lead to no step. An event of the application's
/// window leads to a step only when it resizes the window (one resize, to
/// the new size) or is a key event with a key code (one queued key event,
/// with that key and state); every other event of the window leads to none.
pub proof fn law_window_events_and_their_steps(event: WindowLoopEvent)
    ensures
        steps_for(event).contains(WindowStep::RequestExit) == (event == WindowLoopEvent::Window {
            own: true,
            input: WindowInput::CloseRequested,
        }),
        event matches WindowLoopEvent::Window { own: false, .. } ==> steps_for(event).len() == 0,
        event matches WindowLoopEvent::Window { own: true, input: WindowInput::Other } ==> steps_for(
            event,
        ).len() == 0,
        event matches WindowLoopEvent::Window {
            own: true,
            input: WindowInput::Key { virtual_keycode: None, .. },
        } ==> steps_for(event).len() == 0,
        event matches WindowLoopEvent::Window {
            own: true,
            input: WindowInput::Key { virtual_keycode: Some(key), state },
        } ==> steps_for(event) =~= seq![WindowStep::EnqueueKey { key, state }],
        event matches WindowLoopEvent::Window {
            own: true,
            input: WindowInput::Resized { width, height },
        } ==> steps_for(event) =~= seq![WindowStep::ResizeSurface { width, height }],
        event matches WindowLoopEvent::Window {
            own: true,
            input: WindowInput::ScaleFactorChanged { width, height },
        } ==> steps_for(event) =~= seq![WindowStep::ResizeSurface { width, height }],
        event matches WindowLoopEvent::Window {
            own: true,
            input: WindowInput::CloseRequested,
        } ==> steps_for(event) =~= seq![WindowStep::RequestExit],
{
    let steps = steps_for(event);
    if steps.contains(WindowStep::RequestExit) {
        let j = choose|j: int| 0 <= j < steps.len() && steps[j] == WindowStep::RequestExit;
        assert(steps[j] == WindowStep::RequestExit);
    }
    if event == (WindowLoopEvent::Window { own: true, input: WindowInput::CloseRequested }) {
        assert(steps[0] == WindowStep::RequestExit);
    }
}

/// Whether the loop stops at the end of `event`, given the exit flag as it
/// stands once the event's steps were performed: it stops once a stop was
/// asked for, before the event or while its steps ran, and when the
/// application's window asks to close.
pub open spec fn window_ends_after(event: WindowLoopEvent, exit_requested: bool) -> bool {
    exit_requested || event == WindowLoopEvent::Window { own: true, input: WindowInput::CloseRequested }
}

/// Whether the loop stops at the end of `event`; `exit_requested` is the
/// exit flag read after the event's steps were performed.
pub fn window_loop_ends(event: WindowLoopEvent, exit_requested: bool) -> (r: bool)
    ensures
        r == window_ends_after(event, exit_requested),
{
    match event {
        WindowLoopEvent::Window { own: true, input: WindowInput::CloseRequested } => true,
        _ => exit_requested,
    }
}

/// Over a run of events, with the exit flag read after each event's steps
/// (`flags`), never reset, and set whenever the application's window asks
/// to close: the loop stops at the end of the first event during which a
/// stop was asked for, and at the end of every later event.
pub proof fn law_window_loop_ends_from_first_request(
    events: Seq<WindowLoopEvent>,
    flags: Seq<bool>,
    i: int,
    j: int,
)
    requires
        flags.len() == events.len(),
        forall|a: int, b: int| 0 <= a <= b < flags.len() && #[trigger] flags[a] ==> #[trigger] flags[b],
        forall|a: int|
            0 <= a < events.len() && #[trigger] events[a] == (WindowLoopEvent::Window {
                own: true,
                input: WindowInput::CloseRequested,
            }) ==> flags[a],
        0 <= j <= i < events.len(),
        window_ends_after(events[j], flags[j]),
    ensures
        window_ends_after(events[i], flags[i]),
{
    assert(flags[j]);
}

/// The key tables as [`KeyTables::init`] makes them.
pub open spec fn fresh_tables() -> KeyTablesView {
    KeyTablesView {
        present: Seq::new(KeyCode::LEN as nat, |i: int| KeyState::Released),
        previous: Seq::new(KeyCode::LEN as nat, |i: int| KeyState::Released),
        queue: Seq::empty(),
    }
}

/// The key tables after `step`; steps that are not about them leave them
/// unchanged.
pub open spec fn key_step(v: KeyTablesView, step: WindowStep) -> KeyTablesView {
    match step {
        WindowStep::InitKeyTables => fresh_tables(),
        WindowStep::SettleKeyTables => v.boundary(),
        WindowStep::EnqueueKey { key, state } => KeyTablesView { queue: v.queue.push((key, state)), ..v },
        WindowStep::ApplyKeyTables => v.applied(),
        _ => v,
    }
}

/// The key tables after `steps`, in order.
pub open spec fn key_steps(v: KeyTablesView, steps: Seq<WindowStep>) -> KeyTablesView
    decreases steps.len(),
{
    if steps.len() == 0 {
        v
    } else {
        key_step(key_steps(v, steps.drop_last()), steps.last())
    }
}

/// Every key that `steps` queue names an existing key.
pub open spec fn keys_valid(steps: Seq<WindowStep>) -> bool {
    forall|i: int|
        0 <= i < steps.len() ==> (#[trigger] steps[i] matches WindowStep::EnqueueKey { key, .. } ==> key
            < KeyCode::LEN)
}

/// One slot per key code in both tables, and only existing keys queued.
pub open spec fn tables_valid(v: KeyTablesView) -> bool {
    &&& v.present.len() == KeyCode::LEN
    &&& v.previous.len() == KeyCode::LEN
    &&& v.queue_valid()
}

proof fn lemma_key_step_valid(v: KeyTablesView, step: WindowStep)
    requires
        tables_valid(v),
        step matches WindowStep::EnqueueKey { key, .. } ==> key < KeyCode::LEN,
    ensures
        tables_valid(key_step(v, step)),
{
    if step == WindowStep::ApplyKeyTables {
        lemma_apply_keeps_lengths(v.present, v.previous, v.queue);
    }
    if let WindowStep::EnqueueKey { key, state } = step {
        let w = key_step(v, step);
        assert forall|i: int| 0 <= i < w.queue.len() implies (#[trigger] w.queue[i]).0 < KeyCode::LEN by {
            if i < v.queue.len() {
                assert(w.queue[i] == v.queue[i]);
            }
        }
    }
}

/// Performs the steps that are about the key tables, in order.
pub fn apply_key_steps(tables: &mut KeyTables, steps: &[WindowStep])
    requires
        tables_valid(old(tables)@),
        keys_valid(steps@),
    ensures
        final(tables)@ == key_steps(old(tables)@, steps@),
        tables_valid(final(tables)@),
{
    let mut i: usize = 0;
    while i < steps.len()
        invariant
            0 <= i <= steps@.len(),
            keys_valid(steps@),
            tables@ == key_steps(old(tables)@, steps@.take(i as int)),
            tables_valid(tables@),
        decreases steps@.len() - i,
    {
        let step = steps[i];
        proof {
            assert(steps@.take(i + 1).drop_last() =~= steps@.take(i as int));
            assert(steps@.take(i + 1).last() == step);
            assert(steps@[i as int] == step);
            lemma_key_step_valid(tables@, step);
        }
        match step {
            WindowStep::InitKeyTables => {
                *tables = KeyTables::init();
                assert(tables@ == fresh_tables());
            },
            WindowStep::SettleKeyTables => tables.pre_update(),
            WindowStep::EnqueueKey { key, state } => tables.enqueue(key, state),
            WindowStep::ApplyKeyTables => tables.update(),
            _ => {},
        }
        i = i + 1;
    }
    assert(steps@.take(steps@.len() as int) =~= steps@);
}

/// Every key without a queued event has the same state in both tables.
pub open spec fn settled_outside_queue(v: KeyTablesView) -> bool {
    forall|k: int| #![trigger v.previous[k]] 0 <= k < KeyCode::LEN ==> mentions(v.queue, k) || v.previous[k] == v.present[k]
}

proof fn lemma_key_step_settled(v: KeyTablesView, step: WindowStep)
    requires
        tables_valid(v),
        settled_outside_queue(v),
        step matches WindowStep::EnqueueKey { key, .. } ==> key < KeyCode::LEN,
    ensures
        settled_outside_queue(key_step(v, step)),
{
    let w = key_step(v, step);
    match step {
        WindowStep::EnqueueKey { key, state } => {
            assert forall|k: int| #![trigger w.previous[k]] 0 <= k < KeyCode::LEN implies mentions(w.queue, k)
                || w.previous[k] == w.present[k] by {
                if mentions(v.queue, k) {
                    let j = choose|j: int| 0 <= j < v.queue.len() && (#[trigger] v.queue[j]).0 == k;
                    assert(w.queue[j] == v.queue[j]);
                }
            }
        },
        WindowStep::ApplyKeyTables => {
            assert forall|k: int| #![trigger w.previous[k]] 0 <= k < KeyCode::LEN implies mentions(w.queue, k)
                || w.previous[k] == w.present[k] by {
                if !mentions(v.queue, k) {
                    lemma_last_event_wins_rec(v.present, v.previous, v.queue, k);
                }
            }
        },
        _ => {},
    }
}

/// Whatever steps the loop takes, the key tables stay valid, and a key
/// without a queued event keeps the same state in both tables: a key reads
/// as just pressed or just released only through an event queued for it.
pub proof fn law_steps_keep_tables_settled(v: KeyTablesView, steps: Seq<WindowStep>)
    requires
        tables_valid(v),
        settled_outside_queue(v),
        keys_valid(steps),
    ensures
        tables_valid(key_steps(v, steps)),
        settled_outside_queue(key_steps(v, steps)),
    decreases steps.len(),
{
    if steps.len() > 0 {
        let init = steps.drop_last();
        assert(keys_valid(init)) by {
            assert forall|i: int| 0 <= i < init.len() implies (#[trigger] init[i] matches WindowStep::EnqueueKey {
                key,
                ..
            } ==> key < KeyCode::LEN) by {
                assert(init[i] == steps[i]);
            }
        }
        law_steps_keep_tables_settled(v, init);
        assert(steps[steps.len() - 1] == steps.last());
        lemma_key_step_valid(key_steps(v, init), steps.last());
        lemma_key_step_settled(key_steps(v, init), steps.last());
    }
}

/// Start-up leaves the key tables with every key up in both tables and
/// nothing queued, whatever they held, so they start valid and settled.
pub proof fn law_start_up_resets_tables(v: KeyTablesView)
    ensures
        key_steps(v, steps_for(WindowLoopEvent::Init)) == fresh_tables(),
        tables_valid(fresh_tables()),
        settled_outside_queue(fresh_tables()),
{
    let steps = steps_for(WindowLoopEvent::Init);
    assert(steps =~= seq![WindowStep::InitClock] + seq![WindowStep::InitKeyTables, WindowStep::EnterScene]);
    lemma_key_steps_concat(v, seq![WindowStep::InitClock], seq![WindowStep::InitKeyTables, WindowStep::EnterScene]);
    lemma_key_steps_one(v, WindowStep::InitClock);
    assert(seq![WindowStep::InitKeyTables, WindowStep::EnterScene] =~= seq![WindowStep::InitKeyTables] + seq![
        WindowStep::EnterScene,
    ]);
    lemma_key_steps_concat(v, seq![WindowStep::InitKeyTables], seq![WindowStep::EnterScene]);
    lemma_key_steps_one(v, WindowStep::InitKeyTables);
    lemma_key_steps_one(fresh_tables(), WindowStep::EnterScene);
}

/// The steps for `events`, one event after the other.
pub open spec fn round_steps(events: Seq<WindowLoopEvent>) -> Seq<WindowStep>
    decreases events.len(),
{
    if events.len() == 0 {
        Seq::empty()
    } else {
        round_steps(events.drop_last()) + steps_for(events.last())
    }
}

/// The key events that `events` queue: those of the application's window
/// that name a key, in order.
pub open spec fn queued_keys(events: Seq<WindowLoopEvent>) -> Seq<(usize, KeyState)>
    decreases events.len(),
{
    if events.len() == 0 {
        Seq::empty()
    } else {
        let rest = queued_keys(events.drop_last());
        match events.last() {
            WindowLoopEvent::Window {
                own: true,
                input: WindowInput::Key { virtual_keycode: Some(key), state },
            } => rest.push((key, state)),
            _ => rest,
        }
    }
}

/// A round of the loop: a poll, the given events, then the end of the
/// round's events.
pub open spec fn round(inputs: Seq<WindowLoopEvent>) -> Seq<WindowLoopEvent> {
    seq![WindowLoopEvent::Poll] + inputs + seq![WindowLoopEvent::MainEventsCleared]
}

/// Every event is a window event, and every key it names exists.
pub open spec fn window_inputs_valid(inputs: Seq<WindowLoopEvent>) -> bool {
    forall|i: int|
        0 <= i < inputs.len() ==> {
            &&& #[trigger] inputs[i] is Window
            &&& inputs[i] matches WindowLoopEvent::Window {
                input: WindowInput::Key { virtual_keycode: Some(key), .. },
                ..
            } ==> key < KeyCode::LEN
        }
}

proof fn lemma_key_steps_concat(v: KeyTablesView, a: Seq<WindowStep>, b: Seq<WindowStep>)
    ensures
        key_steps(v, a + b) == key_steps(key_steps(v, a), b),
    decreases b.len(),
{
    if b.len() == 0 {
        assert(a + b =~= a);
    } else {
        assert((a + b).drop_last() =~= a + b.drop_last());
        assert((a + b).last() == b.last());
        lemma_key_steps_concat(v, a, b.drop_last());
    }
}

proof fn lemma_round_steps_concat(s: Seq<WindowLoopEvent>, t: Seq<WindowLoopEvent>)
    ensures
        round_steps(s + t) == round_steps(s) + round_steps(t),
    decreases t.len(),
{
    if t.len() == 0 {
        assert(s + t =~= s);
        assert(round_steps(s) + Seq::<WindowStep>::empty() =~= round_steps(s));
    } else {
        assert((s + t).drop_last() =~= s + t.drop_last());
        assert((s + t).last() == t.last());
        lemma_round_steps_concat(s, t.drop_last());
        assert(round_steps(s) + round_steps(t.drop_last()) + steps_for(t.last()) =~= round_steps(s) + (
        round_steps(t.drop_last()) + steps_for(t.last())));
    }
}

proof fn lemma_round_steps_single(e: WindowLoopEvent)
    ensures
        round_steps(seq![e]) == steps_for(e),
{
    assert(seq![e].drop_last() =~= Seq::<WindowLoopEvent>::empty());
    assert(round_steps(Seq::<WindowLoopEvent>::empty()) == Seq::<WindowStep>::empty());
    assert(seq![e].last() == e);
    assert(Seq::<WindowStep>::empty() + steps_for(e) =~= steps_for(e));
}

/// Window events only queue keys: the tables keep their states, and the
/// queue grows by the events' keys.
proof fn lemma_inputs_queue_keys(w: KeyTablesView, inputs: Seq<WindowLoopEvent>)
    requires
        window_inputs_valid(inputs),
    ensures
        key_steps(w, round_steps(inputs)) == (KeyTablesView { queue: w.queue + queued_keys(inputs), ..w }),
    decreases inputs.len(),
{
    if inputs.len() == 0 {
        assert(w.queue + queued_keys(inputs) =~= w.queue);
    } else {
        let init = inputs.drop_last();
        let e = inputs.last();
        assert(window_inputs_valid(init)) by {
            assert forall|i: int| 0 <= i < init.len() implies #[trigger] init[i] is Window by {
                assert(init[i] == inputs[i]);
            }
            assert forall|i: int| 0 <= i < init.len() implies (#[trigger] init[i] matches WindowLoopEvent::Window {
                input: WindowInput::Key { virtual_keycode: Some(key), .. },
                ..
            } ==> key < KeyCode::LEN) by {
                assert(init[i] == inputs[i]);
            }
        }
        lemma_inputs_queue_keys(w, init);
        lemma_key_steps_concat(w, round_steps(init), steps_for(e));
        let mid = KeyTablesView { queue: w.queue + queued_keys(init), ..w };
        assert(inputs[inputs.len() - 1] == e);
        assert(e is Window);
        reveal_with_fuel(key_steps, 2);
        if let WindowLoopEvent::Window { own, input } = e {
            if own {
                match input {
                    WindowInput::Key { virtual_keycode, state } => {
                        if let Some(key) = virtual_keycode {
                            assert(steps_for(e).drop_last() =~= Seq::<WindowStep>::empty());
                            assert(mid.queue.push((key, state)) =~= w.queue + queued_keys(init).push((key, state)));
                        } else {
                            assert(key_steps(mid, steps_for(e)) == mid);
                        }
                    },
                    WindowInput::Resized { .. } => {
                        assert(steps_for(e).drop_last() =~= Seq::<WindowStep>::empty());
                    },
                    WindowInput::ScaleFactorChanged { .. } => {
                        assert(steps_for(e).drop_last() =~= Seq::<WindowStep>::empty());
                    },
                    WindowInput::CloseRequested => {
                        assert(steps_for(e).drop_last() =~= Seq::<WindowStep>::empty());
                    },
                    WindowInput::Other => {},
                }
            }
        }
    }
}

proof fn lemma_queued_keys_valid(inputs: Seq<WindowLoopEvent>)
    requires
        window_inputs_valid(inputs),
    ensures
        forall|i: int| 0 <= i < queued_keys(inputs).len() ==> (#[trigger] queued_keys(inputs)[i]).0 < KeyCode::LEN,
    decreases inputs.len(),
{
    if inputs.len() > 0 {
        let init = inputs.drop_last();
        assert(window_inputs_valid(init)) by {
            assert forall|i: int| 0 <= i < init.len() implies #[trigger] init[i] is Window by {
                assert(init[i] == inputs[i]);
            }
            assert forall|i: int| 0 <= i < init.len() implies (#[trigger] init[i] matches WindowLoopEvent::Window {
                input: WindowInput::Key { virtual_keycode: Some(key), .. },
                ..
            } ==> key < KeyCode::LEN) by {
                assert(init[i] == inputs[i]);
            }
        }
        lemma_queued_keys_valid(init);
        let e = inputs[inputs.len() - 1];
        assert(inputs.last() == e);
        let q = queued_keys(inputs);
        let qi = queued_keys(init);
        assert forall|i: int| 0 <= i < q.len() implies (#[trigger] q[i]).0 < KeyCode::LEN by {
            if i < qi.len() {
                assert(q[i] == qi[i]);
            }
        }
    }
}

/// Over a round of the loop (a poll, window events, then the end of the
/// round's events), starting from valid tables in which every key without a
/// queued event is settled: each key ends in the state of the last event of
/// the application's window that named it, or keeps its state when none
/// did; a key that no such event named reads as neither just pressed nor
/// just released; and the round's key events stay queued until the next
/// poll. Events of other windows change nothing.
pub proof fn law_round_applies_last_key_event(v: KeyTablesView, inputs: Seq<WindowLoopEvent>, key: KeyCode)
    requires
        tables_valid(v),
        settled_outside_queue(v),
        window_inputs_valid(inputs),
    ensures
        ({
            let after = key_steps(v, round_steps(round(inputs)));
            &&& after.present[key as int] == (match last_state(queued_keys(inputs), key as int) {
                Some(s) => s,
                None => v.present[key as int],
            })
            &&& !mentions(queued_keys(inputs), key as int) ==> !after.just_pressed(key)
                && !after.just_released(key)
            &&& after.queue == queued_keys(inputs)
        }),
{
    let poll = seq![WindowLoopEvent::Poll];
    let end = seq![WindowLoopEvent::MainEventsCleared];
    assert(round(inputs) == poll + inputs + end);
    lemma_round_steps_concat(poll + inputs, end);
    lemma_round_steps_concat(poll, inputs);
    lemma_round_steps_single(WindowLoopEvent::Poll);
    lemma_round_steps_single(WindowLoopEvent::MainEventsCleared);
    let ps = steps_for(WindowLoopEvent::Poll);
    let es = steps_for(WindowLoopEvent::MainEventsCleared);
    let is = round_steps(inputs);
    lemma_key_steps_concat(v, ps + is, es);
    lemma_key_steps_concat(v, ps, is);

    // The poll settles the tables.
    let rest_of_poll = seq![WindowStep::SettleKeyTables];
    assert(ps =~= seq![WindowStep::UpdateClock] + rest_of_poll);
    lemma_key_steps_concat(v, seq![WindowStep::UpdateClock], rest_of_poll);
    lemma_key_steps_one(v, WindowStep::UpdateClock);
    lemma_key_steps_one(v, WindowStep::SettleKeyTables);
    let b = key_steps(v, ps);
    assert(b == v.boundary());

    // The round's window events queue their keys.
    lemma_inputs_queue_keys(b, inputs);
    let q = queued_keys(inputs);
    assert(b.queue + q =~= q);
    let u = KeyTablesView { queue: q, ..b };
    assert(key_steps(b, is) == u);

    // The end of the round applies them.
    let rest_of_end = seq![
        WindowStep::UpdateSurface,
        WindowStep::UpdateScene,
        WindowStep::DrawScene,
        WindowStep::RequestRedraw,
    ];
    assert(es =~= seq![WindowStep::ApplyKeyTables] + rest_of_end);
    lemma_key_steps_concat(u, seq![WindowStep::ApplyKeyTables], rest_of_end);
    lemma_key_steps_one(u, WindowStep::ApplyKeyTables);
    lemma_key_steps_inert(u.applied(), rest_of_end);
    let after = key_steps(v, round_steps(round(inputs)));
    assert(after == u.applied());

    lemma_queued_keys_valid(inputs);
    lemma_last_event_wins_rec(u.present, u.previous, u.queue, key as int);
    assert(v.previous[key as int] == v.present[key as int] || mentions(v.queue, key as int));
}

proof fn lemma_key_steps_one(v: KeyTablesView, step: WindowStep)
    ensures
        key_steps(v, seq![step]) == key_step(v, step),
{
    assert(seq![step].drop_last() =~= Seq::<WindowStep>::empty());
    assert(key_steps(v, Seq::<WindowStep>::empty()) == v);
    assert(seq![step].last() == step);
}

/// Steps that are not about the key tables leave them unchanged.
proof fn lemma_key_steps_inert(v: KeyTablesView, steps: Seq<WindowStep>)
    requires
        forall|i: int|
            0 <= i < steps.len() ==> !(#[trigger] steps[i] is InitKeyTables || steps[i] is SettleKeyTables
                || steps[i] is EnqueueKey || steps[i] is ApplyKeyTables),
    ensures
        key_steps(v, steps) == v,
    decreases steps.len(),
{
    if steps.len() > 0 {
        let init = steps.drop_last();
        assert forall|i: int|
            0 <= i < init.len() implies !(#[trigger] init[i] is InitKeyTables || init[i] is SettleKeyTables
                || init[i] is EnqueueKey || init[i] is ApplyKeyTables) by {
            assert(init[i] == steps[i]);
        }
        lemma_key_steps_inert(v, init);
        assert(steps[steps.len() - 1] == steps.last());
    }
}

} // verus!
