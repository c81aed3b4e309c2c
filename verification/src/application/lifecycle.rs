//! What the application does for each event its event loop delivers.

use vstd::prelude::*;

verus! {

/// An event of the application's event loop, as plain values. Windows are
/// numbered by the caller.
#[derive(Clone, Copy, Debug, PartialEq, Eq, Structural)]
pub enum LoopEvent {
    /// The loop started.
    Init,
    /// A new round of events begins (for any cause other than start-up).
    NewRound,
    /// The user asked to close a window.
    CloseRequested,
    /// A window's inner size changed.
    Resized { window_id: u64, width: u32, height: u32 },
    /// A window's scale factor changed, giving it a new inner size.
    ScaleFactorChanged { window_id: u64, width: u32, height: u32 },
    /// Any other window event (keyboard, cursor, mouse, ...).
    WindowInput,
    /// An event from a device not tied to a window.
    DeviceEvent,
    /// An event sent by the program itself.
    UserEvent,
    Suspended,
    Resumed,
    /// All events of the round were delivered.
    MainEventsCleared,
    /// A window must be redrawn.
    RedrawRequested,
    RedrawEventsCleared,
    /// The loop is about to end.
    LoopDestroyed,
}

/// What the application does in response to one event.
#[derive(Clone, Copy, Debug, PartialEq, Eq, Structural)]
pub enum LoopAction {
    /// Enter the current scene.
    EnterScene,
    /// Wait for the frame interval, then run the frame-boundary updates.
    PreUpdate,
    /// Ask the loop to stop.
    RequestExit,
    /// Resize a window and tell the scene.
    Resize { window_id: u64, width: u32, height: u32 },
    /// Hand the window event to the input tables.
    HandleInput,
    /// Update graphics and the scene, then draw it.
    UpdateAndDraw,
    /// Present what was drawn.
    Present,
    /// Tell the scene the application ends.
    Finish,
    /// Nothing.
    Nothing,
}

/// The action taken for `event`.
pub open spec fn action_for(event: LoopEvent) -> LoopAction {
    match event {
        LoopEvent::Init => LoopAction::EnterScene,
        LoopEvent::NewRound => LoopAction::PreUpdate,
        LoopEvent::CloseRequested => LoopAction::RequestExit,
        LoopEvent::Resized { window_id, width, height } => LoopAction::Resize { window_id, width, height },
        LoopEvent::ScaleFactorChanged { window_id, width, height } => LoopAction::Resize {
            window_id,
            width,
            height,
        },
        LoopEvent::WindowInput => LoopAction::HandleInput,
        LoopEvent::MainEventsCleared => LoopAction::UpdateAndDraw,
        LoopEvent::RedrawRequested => LoopAction::Present,
        LoopEvent::LoopDestroyed => LoopAction::Finish,
        _ => LoopAction::Nothing,
    }
}

/// The action taken for `event`.
pub fn react(event: LoopEvent) -> (r: LoopAction)
    ensures
        r == action_for(event),
{
    match event {
        LoopEvent::Init => LoopAction::EnterScene,
        LoopEvent::NewRound => LoopAction::PreUpdate,
        LoopEvent::CloseRequested => LoopAction::RequestExit,
        LoopEvent::Resized { window_id, width, height } => LoopAction::Resize { window_id, width, height },
        LoopEvent::ScaleFactorChanged { window_id, width, height } => LoopAction::Resize {
            window_id,
            width,
            height,
        },
        LoopEvent::WindowInput => LoopAction::HandleInput,
        LoopEvent::DeviceEvent => LoopAction::Nothing,
        LoopEvent::UserEvent => LoopAction::Nothing,
        LoopEvent::Suspended => LoopAction::Nothing,
        LoopEvent::Resumed => LoopAction::Nothing,
        LoopEvent::MainEventsCleared => LoopAction::UpdateAndDraw,
        LoopEvent::RedrawRequested => LoopAction::Present,
        LoopEvent::RedrawEventsCleared => LoopAction::Nothing,
        LoopEvent::LoopDestroyed => LoopAction::Finish,
    }
}

/// Whether the loop stops at the end of an event whose action was `action`,
/// given the exit flag as it stands once that action was performed: it
/// stops once a stop was asked for, before the event or while its action
/// ran (by the scene, say), and when the action itself asks for it.
pub open spec fn ends_after(action: LoopAction, exit_requested: bool) -> bool {
    exit_requested || action == LoopAction::RequestExit
}

/// Whether the loop stops at the end of an event whose action was `action`;
/// `exit_requested` is the exit flag read after the action was performed.
pub fn loop_ends(action: LoopAction, exit_requested: bool) -> (r: bool)
    ensures
        r == ends_after(action, exit_requested),
{
    match action {
        LoopAction::RequestExit => true,
        _ => exit_requested,
    }
}

/// Over a run of events, with the exit flag read after each event's action
/// (`flags`), never reset, and set by every action that asks for a stop: the
/// loop stops at the end of the first event during which a stop was asked
/// for, and at the end of every later event.
pub proof fn law_loop_ends_from_first_request(actions: Seq<LoopAction>, flags: Seq<bool>, i: int, j: int)
    requires
        flags.len() == actions.len(),
        forall|a: int, b: int| 0 <= a <= b < flags.len() && #[trigger] flags[a] ==> #[trigger] flags[b],
        forall|a: int| 0 <= a < actions.len() && #[trigger] actions[a] == LoopAction::RequestExit ==> flags[a],
        0 <= j <= i < actions.len(),
        ends_after(actions[j], flags[j]),
    ensures
        ends_after(actions[i], flags[i]),
{
    assert(flags[j]);
}

/// Each action is taken for exactly the events that call for it: the scene
/// is entered only at start-up, the frame-boundary updates run only when a
/// new round begins, a stop is asked for only when a window asks to close,
/// windows are resized only for a size or scale change (with that window
/// and size), window input is handled only for window input events, the
/// scene is updated and drawn only once all of a round's events were
/// delivered (once per round), what was drawn is presented only on a
/// redraw request, the scene is finished only when the loop ends, and every
/// other event (device and user events, suspension, resumption, the end of
/// the redraws) leads to nothing.
pub proof fn law_each_action_has_its_event(event: LoopEvent)
    ensures
        (action_for(event) == LoopAction::EnterScene) == (event == LoopEvent::Init),
        (action_for(event) == LoopAction::PreUpdate) == (event == LoopEvent::NewRound),
        (action_for(event) == LoopAction::RequestExit) == (event == LoopEvent::CloseRequested),
        (action_for(event) == LoopAction::HandleInput) == (event == LoopEvent::WindowInput),
        (action_for(event) == LoopAction::UpdateAndDraw) == (event == LoopEvent::MainEventsCleared),
        (action_for(event) == LoopAction::Present) == (event == LoopEvent::RedrawRequested),
        (action_for(event) == LoopAction::Finish) == (event == LoopEvent::LoopDestroyed),
        (action_for(event) is Resize) == (event is Resized || event is ScaleFactorChanged),
        action_for(event) matches LoopAction::Resize { window_id, width, height } ==> (event
            == LoopEvent::Resized { window_id, width, height } || event
            == LoopEvent::ScaleFactorChanged { window_id, width, height }),
        (action_for(event) == LoopAction::Nothing) == (event == LoopEvent::DeviceEvent || event
            == LoopEvent::UserEvent || event == LoopEvent::Suspended || event == LoopEvent::Resumed
            || event == LoopEvent::RedrawEventsCleared),
{
}

} // verus!
