//! Which registered tasks a backend's event loop runs for each event.

use vstd::prelude::*;

verus! {

/// An event of the backend's loop, as plain values.
#[derive(Clone, Copy, Debug, PartialEq, Eq, Structural)]
pub enum BackendEvent {
    /// All events of a round were delivered.
    MainEventsCleared,
    /// The loop is about to end.
    LoopDestroyed,
    /// Any other event.
    Other,
}

/// A task registered with the backend.
#[derive(Clone, Copy, Debug, PartialEq, Eq, Structural)]
pub enum BackendTask {
    Update,
    Render,
    Quit,
}

/// The tasks for `event`, in order: the update task for every event, then
/// the render task when a round's events were delivered, or the quit task
/// when the loop ends.
pub open spec fn tasks_for(event: BackendEvent) -> Seq<BackendTask> {
    match event {
        BackendEvent::MainEventsCleared => seq![BackendTask::Update, BackendTask::Render],
        BackendEvent::LoopDestroyed => seq![BackendTask::Update, BackendTask::Quit],
        BackendEvent::Other => seq![BackendTask::Update],
    }
}

/// The tasks the loop runs for `event`, in order.
pub fn backend_tasks(event: BackendEvent) -> (r: Vec<BackendTask>)
    ensures
        r@ == tasks_for(event),
{
    let mut tasks: Vec<BackendTask> = Vec::new();
    tasks.push(BackendTask::Update);
    match event {
        BackendEvent::MainEventsCleared => tasks.push(BackendTask::Render),
        BackendEvent::LoopDestroyed => tasks.push(BackendTask::Quit),
        BackendEvent::Other => {},
    }
    assert(tasks@ =~= tasks_for(event));
    tasks
}

} // verus!
