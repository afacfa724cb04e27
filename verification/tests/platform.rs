use shufflekeys::platform::linux::{
    contains_str, device_source, event_type_from_value, event_value, fetch_error_action,
    is_event_node, names_keyboard, starts_with_str, timestamp_us, DeviceSource, FetchErrorAction,
    KeyboardSearch,
};
use shufflekeys::platform::macos::{
    classify_tap_event, post_params, TapEventKind, SHUFFLEKEYS_MAGIC,
};
use shufflekeys::platform::{is_modifier, linux, macos, KeyEvent, KeyEventType, Platform};

#[test]
fn linux_modifier_codes() {
    for code in [29u16, 42, 54, 56, 97, 100, 125, 126] {
        assert!(linux::is_modifier(code));
        assert!(is_modifier(Platform::Linux, code));
    }
    for code in [0u16, 28, 30, 55, 57, 98, 124, 127] {
        assert!(!linux::is_modifier(code));
    }
}

#[test]
fn macos_modifier_codes() {
    for code in 54u16..=63 {
        assert!(macos::is_modifier(code));
        assert!(is_modifier(Platform::Macos, code));
    }
    assert!(!macos::is_modifier(53));
    assert!(!macos::is_modifier(64));
    assert!(!is_modifier(Platform::Other, 56));
}

#[test]
fn evdev_values_round_trip() {
    assert_eq!(event_type_from_value(0), Some(KeyEventType::Up));
    assert_eq!(event_type_from_value(1), Some(KeyEventType::Down));
    assert_eq!(event_type_from_value(2), Some(KeyEventType::Repeat));
    assert_eq!(event_type_from_value(3), None);
    assert_eq!(event_type_from_value(-1), None);
    for t in [KeyEventType::Down, KeyEventType::Up, KeyEventType::Repeat] {
        assert_eq!(event_type_from_value(event_value(t)), Some(t));
    }
    assert_eq!(event_value(KeyEventType::Down), 1);
}

#[test]
fn read_errors_decide_the_loop() {
    assert_eq!(fetch_error_action(Some(19), true), FetchErrorAction::Stop);
    assert_eq!(fetch_error_action(Some(11), true), FetchErrorAction::Retry);
    assert_eq!(fetch_error_action(Some(4), true), FetchErrorAction::Retry);
    assert_eq!(fetch_error_action(Some(4), false), FetchErrorAction::Stop);
    assert_eq!(fetch_error_action(Some(13), true), FetchErrorAction::Fail);
    assert_eq!(fetch_error_action(None, true), FetchErrorAction::Fail);
}

#[test]
fn device_source_prefers_explicit_path() {
    assert_eq!(
        device_source(Some("/dev/input/event2".to_string()), false),
        DeviceSource::Path("/dev/input/event2".to_string())
    );
    assert_eq!(device_source(None, true), DeviceSource::AutoDetect);
    assert_eq!(device_source(None, false), DeviceSource::Missing);
}

#[test]
fn text_helpers() {
    assert!(is_event_node("event3"));
    assert!(is_event_node("event"));
    assert!(!is_event_node("mouse0"));
    assert!(!is_event_node("even"));
    assert!(starts_with_str("keyboard", "key"));
    assert!(!starts_with_str("ke", "key"));
    assert!(contains_str("usb keyboard", "keyboard"));
    assert!(!contains_str("usb keybord", "keyboard"));
    assert!(contains_str("abc", ""));
    assert!(contains_str("héllo wörld", "wö"));
    assert!(names_keyboard("AT Translated Set 2 KEYBOARD"));
    assert!(names_keyboard("Logitech USB Keyboard"));
    assert!(!names_keyboard("Power Button"));
}

#[test]
fn keyboard_search_prefers_named_keyboards() {
    // A qualifying device without the name is kept until a named one shows up.
    let mut s = KeyboardSearch::new();
    assert!(!s.offer(0, "Power Button", false, true, false));
    assert!(!s.offer(1, "Gaming Mouse", true, true, true));
    assert_eq!(s.best, Some(1));
    assert!(!s.offer(2, "Other Device", true, true, true));
    assert_eq!(s.best, Some(1));
    assert!(s.offer(3, "USB Keyboard", true, true, true));
    assert_eq!(s.best, Some(3));
    // The search is over: later devices change nothing.
    assert!(s.offer(4, "Second Keyboard", true, true, true));
    assert_eq!(s.best, Some(3));

    let mut s = KeyboardSearch::new();
    assert!(!s.offer(0, "Keyboard without keys", true, false, true));
    assert_eq!(s.best, None);
}

#[test]
fn tap_events_are_classified() {
    assert_eq!(
        classify_tap_event(TapEventKind::KeyDown, 0, 0, 12, 5_000_999),
        Some(KeyEvent {
            key_code: 12,
            event_type: KeyEventType::Down,
            timestamp_us: 5_000
        })
    );
    assert_eq!(
        classify_tap_event(TapEventKind::KeyDown, 1, 0, 12, 5_000_000),
        Some(KeyEvent {
            key_code: 12,
            event_type: KeyEventType::Repeat,
            timestamp_us: 5_000
        })
    );
    assert_eq!(
        classify_tap_event(TapEventKind::KeyUp, 0, 0, 65_536 + 12, 7_000),
        Some(KeyEvent {
            key_code: 12,
            event_type: KeyEventType::Up,
            timestamp_us: 7
        })
    );
    assert_eq!(classify_tap_event(TapEventKind::Other, 0, 0, 12, 1), None);
    assert_eq!(
        classify_tap_event(TapEventKind::KeyDown, 0, SHUFFLEKEYS_MAGIC, 12, 1),
        None
    );
}

#[test]
fn posted_events_carry_the_magic() {
    let ev = KeyEvent {
        key_code: 40,
        event_type: KeyEventType::Repeat,
        timestamp_us: 1_234,
    };
    let p = post_params(&ev);
    assert_eq!(p.key_code, 40);
    assert!(p.key_down);
    assert!(p.autorepeat);
    assert_eq!(p.user_data, SHUFFLEKEYS_MAGIC);
    assert_eq!(p.timestamp_ns, 1_234_000);
    let up = post_params(&KeyEvent {
        key_code: 40,
        event_type: KeyEventType::Up,
        timestamp_us: 9,
    });
    assert!(!up.key_down);
    assert!(!up.autorepeat);
    assert_eq!(
        classify_tap_event(TapEventKind::KeyDown, 1, p.user_data, 40, p.timestamp_ns),
        None
    );
    // Without the mark, tapping what was posted gives the event back.
    assert_eq!(
        classify_tap_event(TapEventKind::KeyDown, 1, 0, p.key_code as i64, p.timestamp_ns),
        Some(ev)
    );
}

#[test]
fn event_timestamps_in_microseconds() {
    assert_eq!(timestamp_us(0, 0), 0);
    assert_eq!(timestamp_us(1_700_000_000, 123_456_789), 1_700_000_000_123_456);
    assert_eq!(timestamp_us(2, 999), 2_000_000);
    let d = std::time::Duration::new(12_345, 678_901_234);
    assert_eq!(timestamp_us(d.as_secs(), d.subsec_nanos()), d.as_micros() as u64);
}
