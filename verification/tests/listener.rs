use keyviz::input::{is_secure_input, map_mouse_button, MouseButton, RawButton};
use keyviz::state::{AppState, Emission, ListenerEvent};

fn press(name: &str) -> ListenerEvent {
    ListenerEvent::KeyPress(name.to_string())
}

fn release(name: &str) -> ListenerEvent {
    ListenerEvent::KeyRelease(name.to_string())
}

fn shortcut(keys: &[&str]) -> Vec<String> {
    keys.iter().map(|k| k.to_string()).collect()
}

#[test]
fn maps_the_three_usual_buttons() {
    assert_eq!(map_mouse_button(RawButton::Left), MouseButton::Left);
    assert_eq!(map_mouse_button(RawButton::Right), MouseButton::Right);
    assert_eq!(map_mouse_button(RawButton::Middle), MouseButton::Middle);
}

#[test]
fn maps_other_buttons_to_other() {
    assert_eq!(map_mouse_button(RawButton::Unknown(4)), MouseButton::Other);
    assert_eq!(map_mouse_button(RawButton::Unknown(0)), MouseButton::Other);
}

#[test]
fn secure_input_flag() {
    assert!(!is_secure_input(0));
    assert!(is_secure_input(1));
    assert!(is_secure_input(255));
}

#[test]
fn new_state_listens_with_nothing_held() {
    let state = AppState::new();
    assert!(state.listening());
    assert!(!state.follow_cursor());
    assert!(state.pressed_keys().is_empty());
    assert_eq!(state.monitor_position(), (0, 0));
    assert_eq!(state.monitor_size(), (0, 0));
}

#[test]
fn key_press_is_tracked_and_forwarded() {
    let mut state = AppState::new();
    let r = state.on_event(&press("KeyA"));
    assert!(r.forward);
    assert!(!r.toggled);
    assert!(!r.reposition);
    assert!(r.released_keys.is_empty());
    assert_eq!(state.pressed_keys(), shortcut(&["KeyA"]));
}

#[test]
fn repeated_press_is_ignored() {
    let mut state = AppState::new();
    state.on_event(&press("KeyA"));
    let r = state.on_event(&press("KeyA"));
    assert!(!r.forward);
    assert!(!r.toggled);
    assert_eq!(state.pressed_keys(), shortcut(&["KeyA"]));
}

#[test]
fn keys_with_raw_codes_are_ignored() {
    let mut state = AppState::new();
    let r = state.on_event(&press("Unknown(191)"));
    assert!(!r.forward);
    assert!(state.pressed_keys().is_empty());
    let r = state.on_event(&release("Unknown(191)"));
    assert!(!r.forward);
    assert!(state.pressed_keys().is_empty());
}

#[test]
fn release_removes_the_key_only() {
    let mut state = AppState::new();
    state.on_event(&press("ShiftLeft"));
    state.on_event(&press("KeyA"));
    state.on_event(&press("KeyB"));
    let r = state.on_event(&release("KeyA"));
    assert!(r.forward);
    assert_eq!(state.pressed_keys(), shortcut(&["ShiftLeft", "KeyB"]));
}

#[test]
fn release_of_a_key_not_held_is_forwarded() {
    let mut state = AppState::new();
    let r = state.on_event(&release("KeyZ"));
    assert!(r.forward);
    assert!(state.pressed_keys().is_empty());
}

#[test]
fn press_then_release_restores_held_keys() {
    let mut state = AppState::new();
    state.on_event(&press("ControlLeft"));
    let before = state.pressed_keys();
    state.on_event(&press("KeyC"));
    state.on_event(&release("KeyC"));
    assert_eq!(state.pressed_keys(), before);
}

#[test]
fn shortcut_switches_listener_off_and_releases_keys() {
    let mut state = AppState::new();
    state.set_toggle_shortcut(shortcut(&["ControlLeft", "ShiftLeft", "KeyK"]));
    assert!(state.on_event(&press("ControlLeft")).forward);
    assert!(state.on_event(&press("ShiftLeft")).forward);
    let r = state.on_event(&press("KeyK"));
    assert!(r.toggled);
    assert!(!r.forward);
    assert!(!state.listening());
    assert_eq!(r.released_keys, shortcut(&["ControlLeft", "ShiftLeft", "KeyK"]));
}

#[test]
fn shortcut_in_another_order_does_not_toggle() {
    let mut state = AppState::new();
    state.set_toggle_shortcut(shortcut(&["ControlLeft", "KeyK"]));
    state.on_event(&press("KeyK"));
    let r = state.on_event(&press("ControlLeft"));
    assert!(!r.toggled);
    assert!(state.listening());
}

#[test]
fn nothing_is_forwarded_while_off() {
    let mut state = AppState::new();
    state.toggle_listener();
    assert!(!state.on_event(&press("KeyA")).forward);
    assert!(!state.on_event(&release("KeyA")).forward);
    assert!(!state.on_event(&ListenerEvent::MouseMove).forward);
    assert!(!state.on_event(&ListenerEvent::ButtonPress(RawButton::Left)).forward);
    let r = state.on_event(&ListenerEvent::Wheel { delta_x: 0, delta_y: -1 });
    assert!(!r.forward);
    // keys are still tracked while off
    assert!(state.pressed_keys().is_empty());
}

#[test]
fn shortcut_switches_listener_back_on() {
    let mut state = AppState::new();
    state.set_toggle_shortcut(shortcut(&["F9"]));
    let r = state.on_event(&press("F9"));
    assert!(r.toggled && !state.listening());
    state.on_event(&release("F9"));
    let r = state.on_event(&press("F9"));
    assert!(r.toggled);
    assert!(r.forward);
    assert!(r.released_keys.is_empty());
    assert!(state.listening());
}

#[test]
fn toggle_listener_twice_restores() {
    let mut state = AppState::new();
    assert!(!state.toggle_listener());
    assert!(state.toggle_listener());
    assert!(state.listening());
}

#[test]
fn pointer_move_asks_for_monitor_check_only_when_following() {
    let mut state = AppState::new();
    let r = state.on_event(&ListenerEvent::MouseMove);
    assert!(r.forward && !r.reposition);
    state.set_follow_cursor(true);
    let r = state.on_event(&ListenerEvent::MouseMove);
    assert!(r.forward && r.reposition);
    let r = state.on_event(&ListenerEvent::ButtonPress(RawButton::Right));
    assert!(r.forward && !r.reposition);
}

#[test]
fn emission_of_each_event() {
    let state = AppState::new();
    assert_eq!(
        state.emission_for(&press("KeyA"), 0),
        Some(Emission::Key { pressed: true, name: "KeyA".to_string() })
    );
    assert_eq!(
        state.emission_for(&release("KeyA"), 0),
        Some(Emission::Key { pressed: false, name: "KeyA".to_string() })
    );
    assert_eq!(
        state.emission_for(&ListenerEvent::ButtonPress(RawButton::Unknown(8)), 0),
        Some(Emission::MouseButton { pressed: true, button: MouseButton::Other })
    );
    assert_eq!(
        state.emission_for(&ListenerEvent::ButtonRelease(RawButton::Middle), 0),
        Some(Emission::MouseButton { pressed: false, button: MouseButton::Middle })
    );
    assert_eq!(
        state.emission_for(&ListenerEvent::Wheel { delta_x: 3, delta_y: -2 }, 0),
        Some(Emission::MouseWheel { delta_x: 3, delta_y: -2 })
    );
}

#[test]
fn nothing_is_shown_during_secure_input() {
    let state = AppState::new();
    assert_eq!(state.emission_for(&press("KeyP"), 1), None);
    assert_eq!(state.emission_for(&ListenerEvent::MouseMove, 7), None);
}

#[test]
fn clearing_forgets_stuck_keys() {
    let mut state = AppState::new();
    state.on_event(&press("ShiftLeft"));
    state.on_event(&press("KeyA"));
    state.on_event(&press("KeyB"));
    state.clear_pressed_keys(&shortcut(&["KeyA", "KeyZ"]));
    assert_eq!(state.pressed_keys(), shortcut(&["ShiftLeft", "KeyB"]));
    // a cleared key is no longer taken for a repeat
    assert!(state.on_event(&press("KeyA")).forward);
    assert_eq!(state.pressed_keys(), shortcut(&["ShiftLeft", "KeyB", "KeyA"]));
}

#[test]
fn clearing_lets_the_shortcut_complete() {
    let mut state = AppState::new();
    state.set_toggle_shortcut(shortcut(&["ControlLeft", "KeyK"]));
    state.on_event(&press("KeyK"));
    state.clear_pressed_keys(&shortcut(&["KeyK"]));
    state.on_event(&press("ControlLeft"));
    let r = state.on_event(&press("KeyK"));
    assert!(r.toggled);
    assert!(!state.listening());
}

#[test]
fn clearing_nothing_changes_nothing() {
    let mut state = AppState::new();
    state.on_event(&press("KeyA"));
    state.clear_pressed_keys(&Vec::new());
    assert_eq!(state.pressed_keys(), shortcut(&["KeyA"]));
    assert!(state.listening());
}
