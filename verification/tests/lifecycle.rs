use rust_try_lib::application::lifecycle::{loop_ends, react, LoopAction, LoopEvent};

#[test]
fn each_event_gets_its_action() {
    assert_eq!(react(LoopEvent::Init), LoopAction::EnterScene);
    assert_eq!(react(LoopEvent::NewRound), LoopAction::PreUpdate);
    assert_eq!(react(LoopEvent::WindowInput), LoopAction::HandleInput);
    assert_eq!(react(LoopEvent::MainEventsCleared), LoopAction::UpdateAndDraw);
    assert_eq!(react(LoopEvent::RedrawRequested), LoopAction::Present);
    assert_eq!(react(LoopEvent::LoopDestroyed), LoopAction::Finish);
    assert_eq!(react(LoopEvent::Suspended), LoopAction::Nothing);
    assert_eq!(
        react(LoopEvent::Resized { window_id: 2, width: 640, height: 480 }),
        LoopAction::Resize { window_id: 2, width: 640, height: 480 }
    );
    assert_eq!(
        react(LoopEvent::ScaleFactorChanged { window_id: 1, width: 10, height: 20 }),
        LoopAction::Resize { window_id: 1, width: 10, height: 20 }
    );
}

#[test]
fn closing_stops_the_loop() {
    let action = react(LoopEvent::CloseRequested);
    assert_eq!(action, LoopAction::RequestExit);
    assert!(loop_ends(action, false));
    assert!(!loop_ends(react(LoopEvent::MainEventsCleared), false));
    assert!(loop_ends(react(LoopEvent::MainEventsCleared), true));
}

#[test]
fn a_stop_asked_while_an_event_is_handled_ends_that_event() {
    // The exit flag is read after the action: a stop asked by the scene
    // while updating ends the loop at the end of that same event.
    let action = react(LoopEvent::MainEventsCleared);
    let mut exit_flag = false;
    assert!(!loop_ends(action, exit_flag));
    exit_flag = true;
    assert!(loop_ends(action, exit_flag));
    assert!(loop_ends(react(LoopEvent::RedrawRequested), exit_flag));
}
