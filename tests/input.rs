use algurulgar::camera::{camera_motion, CameraKeys, Motion};
use algurulgar::input::{
    button_held, button_pressed, button_pressed_this_frame, button_released,
    button_released_this_frame, key_held, key_pressed, key_pressed_this_frame,
    key_released_this_frame, key_state, last_key_pressed, mouse_state, set_key_state,
    set_mouse_state, update_input_state, update_keyboard_state, update_mouse_state, ElementState,
    InputKey, InputState, InputTracker, Key, MouseButton,
};

#[test]
fn key_press_hold_release_sequence() {
    let mut input = InputTracker::new();
    let a = Key::Code(0);
    let mut seen = Vec::new();
    set_key_state(&mut input, a, ElementState::Pressed);
    seen.push(key_state(&input, a));
    update_input_state(&mut input);
    seen.push(key_state(&input, a));
    update_input_state(&mut input);
    seen.push(key_state(&input, a));
    set_key_state(&mut input, a, ElementState::Released);
    seen.push(key_state(&input, a));
    update_input_state(&mut input);
    seen.push(key_state(&input, a));
    assert_eq!(
        seen,
        vec![
            InputState::PressedThisFrame,
            InputState::Held,
            InputState::Held,
            InputState::ReleasedThisFrame,
            InputState::Idle,
        ]
    );
}

#[test]
fn press_then_release_in_one_frame_is_seen() {
    let mut input = InputTracker::new();
    let k = Key::Code(7);
    set_key_state(&mut input, k, ElementState::Pressed);
    set_key_state(&mut input, k, ElementState::Released);
    assert_eq!(key_state(&input, k), InputState::ReleasedThisFrame);
    assert!(key_released_this_frame(&input, k));
    update_input_state(&mut input);
    assert_eq!(key_state(&input, k), InputState::Idle);
}

#[test]
fn aging_settles_after_one_frame() {
    let mut input = InputTracker::new();
    let down = Key::Code(1);
    let up = Key::Code(2);
    set_key_state(&mut input, down, ElementState::Pressed);
    set_key_state(&mut input, up, ElementState::Pressed);
    update_input_state(&mut input);
    set_key_state(&mut input, up, ElementState::Released);
    update_input_state(&mut input);
    for _ in 0..5 {
        update_input_state(&mut input);
        assert_eq!(key_state(&input, down), InputState::Held);
        assert_eq!(key_state(&input, up), InputState::Idle);
    }
}

#[test]
fn repeat_press_does_not_retrigger() {
    let mut input = InputTracker::new();
    let k = Key::Unidentified(42);
    set_key_state(&mut input, k, ElementState::Pressed);
    update_input_state(&mut input);
    set_key_state(&mut input, k, ElementState::Pressed);
    assert_eq!(key_state(&input, k), InputState::Held);
    assert!(key_held(&input, k));
    assert!(key_pressed(&input, k));
    assert!(!key_pressed_this_frame(&input, k));
}

#[test]
fn release_of_idle_key_is_ignored() {
    let mut input = InputTracker::new();
    let k = Key::Code(3);
    set_key_state(&mut input, k, ElementState::Released);
    assert_eq!(key_state(&input, k), InputState::Idle);
    assert!(!key_pressed(&input, k));
}

#[test]
fn last_key_is_the_latest_event() {
    let mut input = InputTracker::new();
    assert_eq!(last_key_pressed(&input), Key::Unidentified(0));
    set_key_state(&mut input, Key::Code(5), ElementState::Pressed);
    set_key_state(&mut input, Key::Code(9), ElementState::Released);
    assert_eq!(last_key_pressed(&input), Key::Code(9));
}

#[test]
fn key_codes() {
    assert_eq!(Key::Code(4).code(), Some(4));
    assert_eq!(Key::Code(4).native_code(), None);
    assert_eq!(Key::Unidentified(8).code(), None);
    assert_eq!(Key::Unidentified(8).native_code(), Some(8));
}

#[test]
fn mouse_buttons_are_tracked_apart_from_keys() {
    let mut input = InputTracker::new();
    set_mouse_state(&mut input, MouseButton::Left, ElementState::Pressed);
    assert!(button_pressed_this_frame(&input, MouseButton::Left));
    assert!(button_pressed(&input, MouseButton::Left));
    assert_eq!(mouse_state(&input, MouseButton::Right), InputState::Idle);
    assert_eq!(input.state(InputKey::Mouse(MouseButton::Left)), InputState::PressedThisFrame);
    update_input_state(&mut input);
    assert!(button_held(&input, MouseButton::Left));
    set_mouse_state(&mut input, MouseButton::Left, ElementState::Released);
    assert!(button_released_this_frame(&input, MouseButton::Left));
    assert!(button_released(&input, MouseButton::Left));
    assert_eq!(last_key_pressed(&input), Key::Unidentified(0));
}

#[test]
fn mouse_press_release_in_one_frame_is_seen() {
    let mut input = InputTracker::new();
    set_mouse_state(&mut input, MouseButton::Other(3), ElementState::Pressed);
    set_mouse_state(&mut input, MouseButton::Other(3), ElementState::Released);
    assert_eq!(mouse_state(&input, MouseButton::Other(3)), InputState::ReleasedThisFrame);
}

#[test]
fn devices_age_separately() {
    let mut input = InputTracker::new();
    set_key_state(&mut input, Key::Code(1), ElementState::Pressed);
    set_mouse_state(&mut input, MouseButton::Middle, ElementState::Pressed);
    update_keyboard_state(&mut input);
    assert_eq!(key_state(&input, Key::Code(1)), InputState::Held);
    assert_eq!(mouse_state(&input, MouseButton::Middle), InputState::PressedThisFrame);
    update_mouse_state(&mut input);
    assert_eq!(mouse_state(&input, MouseButton::Middle), InputState::Held);
    assert_eq!(key_state(&input, Key::Code(1)), InputState::Held);
}

#[test]
fn held_keys_move_the_camera() {
    let keys = CameraKeys {
        left: Key::Code(1),
        right: Key::Code(2),
        up: Key::Code(3),
        down: Key::Code(4),
        zoom_up: Key::Code(5),
        zoom_down: Key::Code(6),
    };
    let mut input = InputTracker::new();
    assert_eq!(camera_motion(&input, &keys), Motion { x: 0, y: 0, zoom: 0 });
    set_key_state(&mut input, Key::Code(2), ElementState::Pressed);
    set_key_state(&mut input, Key::Code(4), ElementState::Pressed);
    set_key_state(&mut input, Key::Code(6), ElementState::Pressed);
    assert_eq!(camera_motion(&input, &keys), Motion { x: 1, y: -1, zoom: -1 });
    update_input_state(&mut input);
    set_key_state(&mut input, Key::Code(1), ElementState::Pressed);
    set_key_state(&mut input, Key::Code(3), ElementState::Pressed);
    set_key_state(&mut input, Key::Code(5), ElementState::Pressed);
    // left wins over right, up over down, raising the zoom over lowering it
    assert_eq!(camera_motion(&input, &keys), Motion { x: -1, y: 1, zoom: 1 });
    set_key_state(&mut input, Key::Code(1), ElementState::Released);
    update_input_state(&mut input);
    assert_eq!(camera_motion(&input, &keys), Motion { x: 1, y: 1, zoom: 1 });
}
