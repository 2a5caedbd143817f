use syrillian::input::{button_code, CursorGrabMode, InputEvent, InputManager, KeyState, MouseButton};

const KEY_W: u32 = 17;

#[test]
fn first_event_grabs_the_cursor_then_releases_it() {
    let mut m = InputManager::new();
    assert_eq!(m.process_event(InputEvent::Other), Some(true));
    m.apply_mouse_mode(true, true);
    assert_eq!(m.get_mouse_mode(), CursorGrabMode::Confined);
    assert!(m.is_confined());
    assert_eq!(m.process_event(InputEvent::Other), Some(false));
    m.apply_mouse_mode(false, true);
    assert_eq!(m.get_mouse_mode(), CursorGrabMode::Free);
    assert_eq!(m.process_event(InputEvent::Other), None);
    m.set_mouse_mode(true);
    assert_eq!(m.process_event(InputEvent::Other), Some(true));
    m.apply_mouse_mode(true, false);
    assert_eq!(m.get_mouse_mode(), CursorGrabMode::Locked);
    assert!(m.is_confined());
}

#[test]
fn key_press_and_release_edges() {
    let mut m = InputManager::new();
    assert_eq!(m.get_key_state(KEY_W), KeyState::Released);
    assert!(m.is_key_released(KEY_W));
    assert!(!m.is_key_up(KEY_W));
    m.process_event(InputEvent::Key { code: KEY_W, state: KeyState::Pressed });
    assert!(m.is_key_down(KEY_W));
    assert!(m.is_key_pressed(KEY_W));
    m.next_frame();
    assert!(!m.is_key_down(KEY_W));
    assert!(m.is_key_pressed(KEY_W));
    // a held key repeating does not count as a new press
    m.process_key(KEY_W, KeyState::Pressed);
    assert!(!m.is_key_down(KEY_W));
    m.process_key(KEY_W, KeyState::Released);
    assert!(m.is_key_up(KEY_W));
    assert!(m.is_key_released(KEY_W));
    m.next_frame();
    assert!(!m.is_key_up(KEY_W));
    assert!(m.is_key_released(KEY_W));
}

#[test]
fn mouse_buttons() {
    let mut m = InputManager::new();
    assert_eq!(button_code(MouseButton::Other(0)), 5);
    assert_ne!(button_code(MouseButton::Left), button_code(MouseButton::Right));
    // the first press of a button never seen is not recorded as a change
    m.process_event(InputEvent::Button { button: MouseButton::Left, state: KeyState::Pressed });
    assert!(m.is_button_pressed(MouseButton::Left));
    assert!(!m.is_button_down(MouseButton::Left));
    m.process_button(MouseButton::Left, KeyState::Released);
    assert!(m.is_button_released(MouseButton::Left));
    m.next_frame();
    assert!(!m.is_button_released(MouseButton::Left));
    m.process_button(MouseButton::Left, KeyState::Pressed);
    assert!(m.is_button_down(MouseButton::Left));
    assert_eq!(m.get_button_state(MouseButton::Right), KeyState::Released);
}
