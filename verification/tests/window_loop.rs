use rust_try_lib::application::window_loop::{
    apply_key_steps, window_loop_ends, window_loop_steps, WindowInput, WindowLoopEvent, WindowStep,
};
use rust_try_lib::input::keyboard::{
    is_just_pressed, is_just_released, is_pressed, is_released, KeyCode, KeyState, KeyTables,
};

fn key(own: bool, code: KeyCode, state: KeyState) -> WindowLoopEvent {
    WindowLoopEvent::Window {
        own,
        input: WindowInput::Key { virtual_keycode: Some(usize::from(code)), state },
    }
}

/// Runs `events` through the loop's decisions and performs their key-table
/// steps on `tables`.
fn run(tables: &mut KeyTables, events: &[WindowLoopEvent]) {
    for event in events {
        let steps = window_loop_steps(*event);
        apply_key_steps(tables, &steps);
    }
}

#[test]
fn each_loop_event_gets_its_steps() {
    assert_eq!(
        window_loop_steps(WindowLoopEvent::Init),
        vec![WindowStep::InitClock, WindowStep::InitKeyTables, WindowStep::EnterScene]
    );
    assert_eq!(
        window_loop_steps(WindowLoopEvent::Poll),
        vec![WindowStep::UpdateClock, WindowStep::SettleKeyTables]
    );
    assert_eq!(window_loop_steps(WindowLoopEvent::OtherStart), vec![]);
    assert_eq!(
        window_loop_steps(key(true, KeyCode::A, KeyState::Pressed)),
        vec![WindowStep::EnqueueKey { key: 10, state: KeyState::Pressed }]
    );
    assert_eq!(
        window_loop_steps(
            WindowLoopEvent::Window {
                own: true,
                input: WindowInput::Key { virtual_keycode: None, state: KeyState::Pressed },
            }),
        vec![]
    );
    assert_eq!(
        window_loop_steps(
            WindowLoopEvent::Window { own: true, input: WindowInput::Resized { width: 640, height: 480 } }),
        vec![WindowStep::ResizeSurface { width: 640, height: 480 }]
    );
    assert_eq!(
        window_loop_steps(
            WindowLoopEvent::Window {
                own: true,
                input: WindowInput::ScaleFactorChanged { width: 1280, height: 960 },
            }),
        vec![WindowStep::ResizeSurface { width: 1280, height: 960 }]
    );
    assert_eq!(
        window_loop_steps(WindowLoopEvent::MainEventsCleared),
        vec![
            WindowStep::ApplyKeyTables,
            WindowStep::UpdateSurface,
            WindowStep::UpdateScene,
            WindowStep::DrawScene,
            WindowStep::RequestRedraw,
        ]
    );
    assert_eq!(
        window_loop_steps(WindowLoopEvent::RedrawRequested),
        vec![WindowStep::Present]
    );
    assert_eq!(
        window_loop_steps(WindowLoopEvent::LoopDestroyed),
        vec![WindowStep::FinishScene, WindowStep::DropKeyTables, WindowStep::DropClock]
    );
    for event in [
        WindowLoopEvent::DeviceEvent,
        WindowLoopEvent::UserEvent,
        WindowLoopEvent::Suspended,
        WindowLoopEvent::Resumed,
        WindowLoopEvent::RedrawEventsCleared,
    ] {
        assert_eq!(window_loop_steps(event), vec![]);
    }
}

#[test]
fn other_windows_are_ignored() {
    assert_eq!(window_loop_steps(key(false, KeyCode::A, KeyState::Pressed)), vec![]);
    let close_other = WindowLoopEvent::Window { own: false, input: WindowInput::CloseRequested };
    assert_eq!(window_loop_steps(close_other), vec![]);
    assert!(!window_loop_ends(close_other, false));
}

#[test]
fn closing_the_window_stops_the_loop() {
    let close = WindowLoopEvent::Window { own: true, input: WindowInput::CloseRequested };
    assert_eq!(window_loop_steps(close), vec![WindowStep::RequestExit]);
    assert!(window_loop_ends(close, false));
    assert!(window_loop_ends(WindowLoopEvent::Poll, true));
    assert!(!window_loop_ends(WindowLoopEvent::Poll, false));
}

#[test]
fn a_round_applies_the_last_key_event() {
    let mut tables = KeyTables::init();
    run(&mut tables, &[WindowLoopEvent::Init]);
    run(
        &mut tables,
        &[
            WindowLoopEvent::Poll,
            key(true, KeyCode::W, KeyState::Pressed),
            key(true, KeyCode::S, KeyState::Pressed),
            key(true, KeyCode::S, KeyState::Released),
            key(false, KeyCode::D, KeyState::Pressed),
            WindowLoopEvent::MainEventsCleared,
        ],
    );
    assert!(is_pressed(&tables, KeyCode::W));
    assert!(is_just_pressed(&tables, KeyCode::W));
    assert!(is_released(&tables, KeyCode::S));
    assert!(is_just_released(&tables, KeyCode::S));
    assert!(is_released(&tables, KeyCode::D));
    assert!(!is_just_pressed(&tables, KeyCode::D));

    run(&mut tables, &[WindowLoopEvent::Poll, WindowLoopEvent::MainEventsCleared]);
    assert!(is_pressed(&tables, KeyCode::W));
    assert!(!is_just_pressed(&tables, KeyCode::W));
    assert!(!is_just_released(&tables, KeyCode::S));
}

#[test]
fn start_up_resets_the_tables() {
    let mut tables = KeyTables::init();
    run(
        &mut tables,
        &[WindowLoopEvent::Poll, key(true, KeyCode::Q, KeyState::Pressed), WindowLoopEvent::MainEventsCleared],
    );
    assert!(is_pressed(&tables, KeyCode::Q));
    run(&mut tables, &[WindowLoopEvent::Init]);
    assert!(is_released(&tables, KeyCode::Q));
    assert!(!is_just_released(&tables, KeyCode::Q));
}
