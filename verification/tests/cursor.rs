use bevy::input::keyboard::KeyCode;
use bevy::input::ButtonInput;
use fps_controller::cursor::{toggle_cursor, CursorGrabMode, CursorOptions};

fn escape_down() -> ButtonInput<KeyCode> {
    let mut input = ButtonInput::default();
    input.press(KeyCode::Escape);
    input
}

#[test]
fn captured_is_hidden_and_locked() {
    assert_eq!(
        CursorOptions::captured(),
        CursorOptions { visible: false, grab_mode: CursorGrabMode::Locked }
    );
}

#[test]
fn toggle_frees_a_locked_cursor() {
    let mut c = CursorOptions::captured();
    toggle_cursor(&escape_down(), &mut c);
    assert_eq!(c, CursorOptions { visible: true, grab_mode: CursorGrabMode::Free });
}

#[test]
fn toggle_locks_a_free_cursor() {
    let mut c = CursorOptions { visible: true, grab_mode: CursorGrabMode::Free };
    toggle_cursor(&escape_down(), &mut c);
    assert_eq!(c, CursorOptions { visible: false, grab_mode: CursorGrabMode::Locked });
}

#[test]
fn toggle_frees_a_confined_cursor() {
    let mut c = CursorOptions { visible: false, grab_mode: CursorGrabMode::Confined };
    toggle_cursor(&escape_down(), &mut c);
    assert_eq!(c, CursorOptions { visible: true, grab_mode: CursorGrabMode::Free });
}

#[test]
fn no_key_no_toggle() {
    let mut c = CursorOptions { visible: false, grab_mode: CursorGrabMode::Confined };
    toggle_cursor(&ButtonInput::default(), &mut c);
    assert_eq!(c, CursorOptions { visible: false, grab_mode: CursorGrabMode::Confined });
}

#[test]
fn other_keys_do_not_toggle() {
    let mut input = ButtonInput::default();
    input.press(KeyCode::KeyW);
    input.press(KeyCode::Space);
    let mut c = CursorOptions::captured();
    toggle_cursor(&input, &mut c);
    assert_eq!(c, CursorOptions::captured());
}

#[test]
fn held_escape_toggles_once() {
    let mut input = escape_down();
    let mut c = CursorOptions::captured();
    toggle_cursor(&input, &mut c);
    assert_eq!(c, CursorOptions { visible: true, grab_mode: CursorGrabMode::Free });
    input.clear();
    toggle_cursor(&input, &mut c);
    assert_eq!(c, CursorOptions { visible: true, grab_mode: CursorGrabMode::Free });
}

#[test]
fn toggle_method_flips_the_state() {
    let mut c = CursorOptions { visible: true, grab_mode: CursorGrabMode::Confined };
    c.toggle();
    assert_eq!(c, CursorOptions { visible: false, grab_mode: CursorGrabMode::Free });
    c.toggle();
    assert_eq!(c, CursorOptions { visible: true, grab_mode: CursorGrabMode::Locked });
}

#[test]
fn two_toggles_restore_the_cursor() {
    let start = CursorOptions::captured();
    let mut c = start;
    toggle_cursor(&escape_down(), &mut c);
    toggle_cursor(&escape_down(), &mut c);
    assert_eq!(c, start);
}
