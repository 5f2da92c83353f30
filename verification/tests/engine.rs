use gouda::engine::{frame_step, quit_requested, window_events_outcome, FrameStep, WindowEventKind};
use gouda::input::{osx_process_key, GameButtonState, KeyboardInput};

fn keyboard() -> KeyboardInput {
    let up = GameButtonState { ended_down: false, half_transition_count: 0 };
    KeyboardInput { special_keys: [up; 5], letter_keys: [up; 26], number_keys: [up; 10], cmd_down: false }
}

#[test]
fn frames_wait_below_sixteen_ms() {
    assert_eq!(frame_step(0), FrameStep::Wait);
    assert_eq!(frame_step(15_999_999), FrameStep::Wait);
    assert_eq!(frame_step(16_000_000), FrameStep::Run { dt_ms: 16 });
    assert_eq!(frame_step(33_500_000), FrameStep::Run { dt_ms: 33 });
}

#[test]
fn close_ends_the_loop_and_stops_the_events() {
    assert_eq!(window_events_outcome(&vec![]), (0, false));
    assert_eq!(window_events_outcome(&vec![WindowEventKind::Resize, WindowEventKind::Resize]), (2, false));
    assert_eq!(window_events_outcome(&vec![WindowEventKind::Resize, WindowEventKind::Close, WindowEventKind::Resize]), (1, true));
    assert_eq!(window_events_outcome(&vec![WindowEventKind::Close]), (0, true));
}

#[test]
fn quit_needs_command_and_q() {
    let mut kb = keyboard();
    assert!(!quit_requested(&kb));
    osx_process_key(&mut kb, 'q' as u16, true);
    assert!(!quit_requested(&kb));
    kb.cmd_down = true;
    assert!(quit_requested(&kb));
    osx_process_key(&mut kb, 'Q' as u16, false);
    assert!(!quit_requested(&kb));
}
