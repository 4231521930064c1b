use keyviz::monitor::{find_monitor_at, find_monitor_named, in_rect, MonitorGeometry};
use keyviz::state::{AppState, Emission, ListenerEvent};

fn monitor(name: &str, x: i32, y: i32, width: u32, height: u32) -> MonitorGeometry {
    MonitorGeometry { name: Some(name.to_string()), x, y, width, height }
}

fn two_monitors() -> Vec<MonitorGeometry> {
    vec![monitor("Built-in", 0, 0, 1920, 1080), monitor("External", 1920, -200, 2560, 1440)]
}

#[test]
fn rectangle_edges() {
    assert!(in_rect(0, 0, 1920, 1080, 0, 0));
    assert!(in_rect(0, 0, 1920, 1080, 1919, 1079));
    assert!(!in_rect(0, 0, 1920, 1080, 1920, 0));
    assert!(!in_rect(0, 0, 1920, 1080, 0, 1080));
    assert!(!in_rect(0, 0, 1920, 1080, -1, 5));
    assert!(in_rect(-1280, -300, 1280, 1024, -1, 0));
}

#[test]
fn huge_extent_is_read_as_signed() {
    // 0x8000_0000 as a signed 32-bit number is negative: the rectangle is empty
    assert!(!in_rect(0, 0, 0x8000_0000, 100, 10, 10));
}

#[test]
fn finds_the_monitor_holding_a_point() {
    let ms = two_monitors();
    assert_eq!(find_monitor_at(&ms, 100, 100), Some(0));
    assert_eq!(find_monitor_at(&ms, 2000, -100), Some(1));
    assert_eq!(find_monitor_at(&ms, 5000, 0), None);
}

#[test]
fn finds_the_first_of_overlapping_monitors() {
    let ms = vec![monitor("A", 0, 0, 100, 100), monitor("B", 50, 50, 100, 100)];
    assert_eq!(find_monitor_at(&ms, 60, 60), Some(0));
    assert_eq!(find_monitor_at(&ms, 120, 120), Some(1));
}

#[test]
fn finds_monitor_by_name() {
    let ms = two_monitors();
    assert_eq!(find_monitor_named(&ms, &"External".to_string()), Some(1));
    assert_eq!(find_monitor_named(&ms, &"Missing".to_string()), None);
    let unnamed = vec![MonitorGeometry { name: None, x: 0, y: 0, width: 10, height: 10 }];
    assert_eq!(find_monitor_named(&unnamed, &"".to_string()), None);
}

#[test]
fn unknown_monitor_holds_no_cursor() {
    let state = AppState::new();
    assert!(!state.cursor_on_monitor(0, 0));
}

#[test]
fn following_the_pointer_moves_to_its_monitor() {
    let mut state = AppState::new();
    let ms = two_monitors();
    assert_eq!(state.move_to_monitor_at(&ms, 3000, 100), Some(1));
    assert_eq!(state.monitor_position(), (1920, -200));
    assert_eq!(state.monitor_size(), (2560, 1440));
    assert!(state.monitor_is_current(&"External".to_string()));
    assert!(state.cursor_on_monitor(3000, 100));
    assert!(!state.cursor_on_monitor(100, 100));
    // the pointer position of a move is then shown relative to that monitor
    assert_eq!(
        state.emission_for(&ListenerEvent::MouseMove, 0),
        Some(Emission::MouseMove { origin_x: 1920, origin_y: -200 })
    );
}

#[test]
fn following_the_pointer_off_every_monitor_changes_nothing() {
    let mut state = AppState::new();
    let ms = two_monitors();
    state.move_to_monitor_at(&ms, 10, 10);
    assert_eq!(state.move_to_monitor_at(&ms, -10, -10), None);
    assert_eq!(state.monitor_position(), (0, 0));
    assert_eq!(state.monitor_size(), (1920, 1080));
    assert!(state.monitor_is_current(&"Built-in".to_string()));
}

#[test]
fn moving_to_a_named_monitor() {
    let mut state = AppState::new();
    let ms = two_monitors();
    let name = "External".to_string();
    assert!(!state.monitor_is_current(&name));
    assert_eq!(state.move_to_named_monitor(&ms, &name), Some(1));
    assert!(state.monitor_is_current(&name));
    assert_eq!(state.monitor_position(), (1920, -200));
    assert_eq!(state.monitor_size(), (2560, 1440));
    assert_eq!(state.move_to_named_monitor(&ms, &"Missing".to_string()), None);
    assert!(state.monitor_is_current(&name));
}
