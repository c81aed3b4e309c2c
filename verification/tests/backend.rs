use rust_try_lib::system::backend::{backend_tasks, BackendEvent, BackendTask};

#[test]
fn each_backend_event_runs_its_tasks() {
    assert_eq!(backend_tasks(BackendEvent::Other), vec![BackendTask::Update]);
    assert_eq!(
        backend_tasks(BackendEvent::MainEventsCleared),
        vec![BackendTask::Update, BackendTask::Render]
    );
    assert_eq!(
        backend_tasks(BackendEvent::LoopDestroyed),
        vec![BackendTask::Update, BackendTask::Quit]
    );
}
