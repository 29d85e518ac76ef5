use window_debug::cli::Color;
use window_debug::window::kill_keys_pressed;
use window_debug::window::window_title;
use window_debug::window::FrameAction;
use window_debug::window::KeyKind;
use window_debug::window::WindowState;
use window_debug::window::INITIAL_SIZE;

#[test]
fn kill_chord_needs_both_keys() {
    assert!(!kill_keys_pressed(&[]));
    assert!(!kill_keys_pressed(&[KeyKind::Quit]));
    assert!(!kill_keys_pressed(&[KeyKind::Shift]));
    assert!(!kill_keys_pressed(&[KeyKind::Other, KeyKind::Other]));
    assert!(!kill_keys_pressed(&[KeyKind::Shift, KeyKind::Shift, KeyKind::Other]));
    assert!(kill_keys_pressed(&[KeyKind::Quit, KeyKind::Shift]));
    assert!(kill_keys_pressed(&[KeyKind::Shift, KeyKind::Other, KeyKind::Quit]));
}

#[test]
fn window_starts_with_a_frame_due() {
    let state = WindowState::new();
    assert_eq!(INITIAL_SIZE, (300, 300));
    assert_eq!(state, WindowState { size: (300, 300), is_focused: true, redraw: true });
}

#[test]
fn first_poll_paints_even_if_nothing_changed() {
    let mut state = WindowState::new();
    assert_eq!(state.observe(&[], (300, 300), true), FrameAction::Redraw);
    assert_eq!(state, WindowState { size: (300, 300), is_focused: true, redraw: false });
    assert_eq!(state.observe(&[], (300, 300), true), FrameAction::Idle);
    assert_eq!(state, WindowState { size: (300, 300), is_focused: true, redraw: false });
}

#[test]
fn resize_calls_for_a_frame() {
    let mut state = WindowState { size: (300, 300), is_focused: true, redraw: false };
    assert_eq!(state.observe(&[], (301, 300), true), FrameAction::Redraw);
    assert_eq!(state.size, (301, 300));
    assert_eq!(state.observe(&[], (301, 299), true), FrameAction::Redraw);
    assert_eq!(state.size, (301, 299));
    assert_eq!(state.observe(&[KeyKind::Other], (301, 299), true), FrameAction::Idle);
}

#[test]
fn focus_change_calls_for_a_frame() {
    let mut state = WindowState { size: (300, 300), is_focused: true, redraw: false };
    assert_eq!(state.observe(&[], (300, 300), false), FrameAction::Redraw);
    assert!(!state.is_focused);
    assert_eq!(state.observe(&[], (300, 300), false), FrameAction::Idle);
    assert_eq!(state.observe(&[KeyKind::Quit], (300, 300), true), FrameAction::Redraw);
    assert!(state.is_focused);
}

#[test]
fn kill_chord_quits_and_keeps_the_state() {
    let mut state = WindowState { size: (300, 300), is_focused: true, redraw: true };
    assert_eq!(state.observe(&[KeyKind::Shift, KeyKind::Quit], (10, 10), false), FrameAction::Quit);
    assert_eq!(state, WindowState { size: (300, 300), is_focused: true, redraw: true });
}

#[test]
fn title_names_the_program_and_the_colour() {
    let red = Color::new_hex(0xFF0000, 0, Some("Red"));
    assert_eq!(window_title(&red, None), "window_debug - Red");
    let plain = Color::new_hex(0x00B300, 0, None);
    assert_eq!(window_title(&plain, None), "window_debug - #00B300");
}

#[test]
fn title_can_be_overridden() {
    let red = Color::new_hex(0xFF0000, 0, Some("Red"));
    assert_eq!(window_title(&red, Some("mine")), "mine");
    assert_eq!(window_title(&red, Some("")), "");
}
