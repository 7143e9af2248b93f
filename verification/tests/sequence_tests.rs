use ranitask::sequence::{HotkeyBinding, InputEvent, InputEventType, MouseButton, Sequence};
use ranitask::sequence::{chrono_now, sum_delays};

fn key(vk: u16, pressed: bool, delay: i64) -> InputEvent {
    InputEvent {
        delay_micros: delay,
        event_type: InputEventType::KeyPress { vk_code: vk, scan_code: 0x10, pressed, extended: false },
    }
}

#[test]
fn new_sequence_sums_its_delays() {
    let events = vec![
        key(0x41, true, 0),
        key(0x41, false, 120_000),
        InputEvent { delay_micros: 30_000, event_type: InputEventType::MouseWheel { delta: 120 } },
    ];
    let s = Sequence::new("combo".to_string(), events.clone());
    assert_eq!(s.name, "combo");
    assert!(s.hotkey.is_none());
    assert_eq!(s.events, events);
    assert_eq!(s.total_duration_micros, 150_000);
    assert!(!s.created_at.is_empty());
    assert!(s.created_at.chars().all(|c| c.is_ascii_digit()));
}

#[test]
fn new_sequence_without_events_lasts_nothing() {
    let s = Sequence::new("empty".to_string(), Vec::new());
    assert_eq!(s.total_duration_micros, 0);
    assert!(s.events.is_empty());
}

#[test]
fn set_and_clear_hotkey() {
    let mut s = Sequence::new("x".to_string(), vec![key(0x20, true, 5)]);
    s.set_hotkey(0x75);
    assert_eq!(s.hotkey, Some(HotkeyBinding { modifiers: 0, vk_code: 0x75 }));
    assert_eq!(s.name, "x");
    s.clear_hotkey();
    assert!(s.hotkey.is_none());
    assert_eq!(s.total_duration_micros, 5);
}

#[test]
fn sum_delays_reports_overflow() {
    let big = vec![key(1, true, i64::MAX), key(1, false, 1)];
    assert_eq!(sum_delays(&big), None);
    let small = vec![key(1, true, -5), key(1, false, 7)];
    assert_eq!(sum_delays(&small), Some(2));
}

#[test]
fn chrono_now_is_unix_seconds_in_decimal() {
    let s = chrono_now();
    let secs: u64 = s.parse().unwrap();
    // After 2020-01-01 on any machine with a sane clock.
    assert!(secs > 1_577_836_800);
    assert!(!s.starts_with('0'));
}

#[test]
fn mouse_button_event_round_trips_through_clone() {
    let e = InputEvent {
        delay_micros: 1,
        event_type: InputEventType::MouseButton { button: MouseButton::X2, pressed: true },
    };
    assert_eq!(e.clone(), e);
}

use ranitask::sequence::unix_stamp;

#[test]
fn creation_stamps() {
    assert_eq!(unix_stamp(Some(1_700_000_000)), "1700000000");
    assert_eq!(unix_stamp(Some(0)), "0");
    assert_eq!(unix_stamp(None), "0");
    assert_eq!(unix_stamp(Some(u64::MAX)), u64::MAX.to_string());
}
