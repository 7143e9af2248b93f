use ranitask::recorder::{
    is_recording, keyboard_hook_event, mouse_hook_event, push_event, start_recording,
    stop_recording, LLKHF_EXTENDED, LLKHF_INJECTED, LLMHF_INJECTED, WM_KEYDOWN, WM_KEYUP,
    WM_LBUTTONDOWN, WM_MOUSEMOVE, WM_MOUSEWHEEL, WM_RBUTTONUP, WM_SYSKEYDOWN, WM_XBUTTONDOWN,
    WM_XBUTTONUP,
};
use ranitask::sequence::{InputEvent, InputEventType, MouseButton};

#[test]
fn mouse_messages() {
    assert_eq!(mouse_hook_event(WM_MOUSEMOVE, 10, -5, 0, 0), Some(InputEventType::MouseMove { x: 10, y: -5 }));
    assert_eq!(
        mouse_hook_event(WM_LBUTTONDOWN, 0, 0, 0, 0),
        Some(InputEventType::MouseButton { button: MouseButton::Left, pressed: true })
    );
    assert_eq!(
        mouse_hook_event(WM_RBUTTONUP, 0, 0, 0, 0),
        Some(InputEventType::MouseButton { button: MouseButton::Right, pressed: false })
    );
    assert_eq!(mouse_hook_event(WM_MOUSEWHEEL, 0, 0, 0x0078_0000, 0), Some(InputEventType::MouseWheel { delta: 120 }));
    assert_eq!(mouse_hook_event(WM_MOUSEWHEEL, 0, 0, 0xFF88_0000, 0), Some(InputEventType::MouseWheel { delta: -120 }));
    assert_eq!(
        mouse_hook_event(WM_XBUTTONDOWN, 0, 0, 0x0001_0000, 0),
        Some(InputEventType::MouseButton { button: MouseButton::X1, pressed: true })
    );
    assert_eq!(
        mouse_hook_event(WM_XBUTTONUP, 0, 0, 0x0002_0000, 0),
        Some(InputEventType::MouseButton { button: MouseButton::X2, pressed: false })
    );
    assert_eq!(mouse_hook_event(0x0999, 0, 0, 0, 0), None);
}

#[test]
fn injected_mouse_input_is_not_recorded() {
    assert_eq!(mouse_hook_event(WM_LBUTTONDOWN, 0, 0, 0, LLMHF_INJECTED), None);
    assert_eq!(mouse_hook_event(WM_MOUSEMOVE, 1, 1, 0, LLMHF_INJECTED | 2), None);
}

#[test]
fn keyboard_messages() {
    let hotkeys: Vec<u16> = vec![0x77, 0x7A];
    assert_eq!(
        keyboard_hook_event(WM_KEYDOWN, 0x41, 0x1E, 0, &hotkeys),
        Some(InputEventType::KeyPress { vk_code: 0x41, scan_code: 0x1E, pressed: true, extended: false })
    );
    assert_eq!(
        keyboard_hook_event(WM_SYSKEYDOWN, 0x12, 0x38, LLKHF_EXTENDED, &hotkeys),
        Some(InputEventType::KeyPress { vk_code: 0x12, scan_code: 0x38, pressed: true, extended: true })
    );
    assert_eq!(
        keyboard_hook_event(WM_KEYUP, 0x1_0041, 0x2_001E, 0, &hotkeys),
        Some(InputEventType::KeyPress { vk_code: 0x41, scan_code: 0x1E, pressed: false, extended: false })
    );
    assert_eq!(keyboard_hook_event(WM_KEYDOWN, 0x77, 0x42, 0, &hotkeys), None);
    assert_eq!(keyboard_hook_event(WM_KEYDOWN, 0x41, 0x1E, LLKHF_INJECTED, &hotkeys), None);
}

#[test]
fn recording_times_events_from_the_previous_one() {
    let mut state = Some(start_recording(1_000_000, 500));
    assert!(is_recording(&state));
    let key = InputEventType::KeyPress { vk_code: 1, scan_code: 2, pressed: true, extended: false };
    if let Some(s) = state.as_mut() {
        push_event(s, 1_500, key);
        push_event(s, 4_000, InputEventType::MouseWheel { delta: 1 });
    }
    let events = stop_recording(&mut state).unwrap();
    assert!(!is_recording(&state));
    assert_eq!(
        events,
        vec![
            InputEvent { delay_micros: 1_000, event_type: key },
            InputEvent { delay_micros: 2_500, event_type: InputEventType::MouseWheel { delta: 1 } },
        ]
    );
    assert_eq!(stop_recording(&mut state), None);
}

#[test]
fn recording_with_a_coarse_counter() {
    // 10 MHz counter: 25 ticks are 2.5 microseconds, rounded down.
    let mut s = start_recording(10_000_000, 0);
    push_event(&mut s, 25, InputEventType::MouseMove { x: 0, y: 0 });
    let mut state = Some(s);
    let events = stop_recording(&mut state).unwrap();
    assert_eq!(events[0].delay_micros, 2);
}
