use drafftink::input::{ClickMemory, InputState, KeyEvent, Modifiers, MouseButton};

#[test]
fn test_button_press() {
    let mut input = InputState::new();

    input.button_down(MouseButton::Left, false);

    assert!(input.is_button_pressed(MouseButton::Left));
    assert!(input.is_button_just_pressed(MouseButton::Left));
    assert!(!input.is_button_pressed(MouseButton::Right));
}

#[test]
fn test_button_release() {
    let mut input = InputState::new();

    input.button_down(MouseButton::Left, false);
    input.button_up(MouseButton::Left);

    assert!(!input.is_button_pressed(MouseButton::Left));
    assert!(input.is_button_just_released(MouseButton::Left));
}

#[test]
fn test_begin_frame_clears_just_pressed() {
    let mut input = InputState::new();

    input.button_down(MouseButton::Left, false);

    assert!(input.is_button_just_pressed(MouseButton::Left));

    input.begin_frame();

    assert!(!input.is_button_just_pressed(MouseButton::Left));
    assert!(input.is_button_pressed(MouseButton::Left));
}

#[test]
fn test_key_press() {
    let mut input = InputState::new();

    input.handle_key_event(KeyEvent::Pressed("a".to_string()));

    assert!(input.is_key_pressed("a"));
    assert!(input.is_key_just_pressed("a"));

    input.begin_frame();

    assert!(input.is_key_pressed("a"));
    assert!(!input.is_key_just_pressed("a"));
}

/// Whether a press at `pos` comes within 5 units of a click remembered at
/// `last` (the time test is taken as met: the presses follow each other).
fn near(last: Option<(f64, f64)>, pos: (f64, f64)) -> bool {
    match last {
        Some((x, y)) => ((pos.0 - x).powi(2) + (pos.1 - y).powi(2)).sqrt() < 5.0,
        None => false,
    }
}

#[test]
fn test_double_click_detection() {
    let mut input = InputState::new();
    let pos = (100.0, 100.0);
    let mut last = None;

    let r = input.button_down(MouseButton::Left, near(last, pos));
    assert!(!input.is_double_click());
    assert_eq!(r.click, ClickMemory::Remember);
    last = Some(pos);

    input.button_up(MouseButton::Left);
    input.begin_frame();

    let r = input.button_down(MouseButton::Left, near(last, pos));
    assert!(input.is_double_click());
    assert_eq!(r.click, ClickMemory::Forget);

    input.begin_frame();
    assert!(!input.is_double_click());
}

#[test]
fn test_double_click_too_far() {
    let mut input = InputState::new();
    let mut last = None;

    let first = (100.0, 100.0);
    input.button_down(MouseButton::Left, near(last, first));
    last = Some(first);
    input.button_up(MouseButton::Left);
    input.begin_frame();

    let second = (200.0, 200.0);
    let r = input.button_down(MouseButton::Left, near(last, second));
    assert!(!input.is_double_click());
    assert_eq!(r.click, ClickMemory::Remember);
}

#[test]
fn left_button_drags_until_released() {
    let mut input = InputState::new();
    assert!(!input.is_dragging);
    let r = input.button_down(MouseButton::Left, false);
    assert!(r.drag_started);
    assert!(input.is_dragging);
    let r = input.button_down(MouseButton::Right, false);
    assert!(!r.drag_started);
    assert_eq!(r.click, ClickMemory::Keep);
    input.button_up(MouseButton::Right);
    assert!(input.is_dragging);
    input.button_up(MouseButton::Left);
    assert!(!input.is_dragging);
}

#[test]
fn pressing_held_button_again_is_not_just_pressed() {
    let mut input = InputState::new();
    input.button_down(MouseButton::Middle, false);
    input.begin_frame();
    input.button_down(MouseButton::Middle, false);
    assert!(!input.is_button_just_pressed(MouseButton::Middle));
    input.button_up(MouseButton::Right);
    assert!(!input.is_button_just_released(MouseButton::Right));
}

#[test]
fn key_release_and_modifiers() {
    let mut input = InputState::new();
    input.handle_key_event(KeyEvent::Pressed("Shift".to_string()));
    input.handle_key_event(KeyEvent::Pressed("b".to_string()));
    input.handle_key_event(KeyEvent::Released("Shift".to_string()));
    assert!(!input.is_key_pressed("Shift"));
    assert!(input.is_key_just_pressed("Shift"));
    assert!(input.is_key_pressed("b"));
    let m = Modifiers { shift: true, ctrl: false, alt: true, meta: false };
    input.set_modifiers(m);
    assert_eq!(input.modifiers, m);
    assert_eq!(Modifiers::default(), Modifiers { shift: false, ctrl: false, alt: false, meta: false });
}
