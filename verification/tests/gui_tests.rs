use ranitask::gui::{
    apply_key_choice, available_keys_for_binding, binding_error_text, color_text, combo_index,
    delete_prompt, entered_name, fallback_events, format_binding, generate_seq_name,
    handle_play_queue_hotkey, handle_play_sequence, handle_play_toggle, handle_record_toggle,
    listener_started_status, load_all_bindings, loaded_events, new_remote_binding, play_button_text,
    queue_display, queue_move_down, queue_move_up, receiver_button_text, receiver_status,
    record_button_text, recording_to_save, refresh_bindings, remove_from_queue,
    rename_conflict_text, rename_in_queue, send_play_request, send_request_status,
    send_result_text, sequence_display, sequence_for_vk, settings_choice, settings_error_text,
    status_text, strip_key_suffix, BindingError, HotkeyChoice, PlayToggle, RecordToggle,
    SettingsError,
};
use ranitask::sequence::{HotkeyBinding, InputEvent, InputEventType, Sequence};

fn ev(d: i64) -> InputEvent {
    InputEvent { delay_micros: d, event_type: InputEventType::MouseWheel { delta: 1 } }
}

fn names(v: &[&str]) -> Vec<String> {
    v.iter().map(|s| s.to_string()).collect()
}

#[test]
fn record_toggle_decisions() {
    assert_eq!(handle_record_toggle(true, false), RecordToggle::StopRecording);
    assert_eq!(handle_record_toggle(true, true), RecordToggle::StopRecording);
    assert_eq!(handle_record_toggle(false, true), RecordToggle::Ignore);
    assert_eq!(handle_record_toggle(false, false), RecordToggle::StartRecording);
    assert_eq!(recording_to_save(Some(Vec::new())), None);
    assert_eq!(recording_to_save(None), None);
    assert_eq!(recording_to_save(Some(vec![ev(1)])), Some(vec![ev(1)]));
}

#[test]
fn play_toggle_decisions() {
    assert_eq!(handle_play_toggle(true, true, 3), PlayToggle::CancelPlayback);
    assert_eq!(handle_play_toggle(false, true, 3), PlayToggle::Ignore);
    assert_eq!(handle_play_toggle(false, false, 3), PlayToggle::PlayQueue);
    assert_eq!(handle_play_toggle(false, false, 0), PlayToggle::PlayDefault);
    assert_eq!(fallback_events(Some(vec![ev(1)]), Some(vec![ev(2)])), Some(vec![ev(1)]));
    assert_eq!(fallback_events(None, Some(vec![ev(2)])), Some(vec![ev(2)]));
    assert_eq!(fallback_events(None, None), None);
}

#[test]
fn queue_hotkey_only_when_idle() {
    assert!(handle_play_queue_hotkey(false, false, 1));
    assert!(!handle_play_queue_hotkey(false, false, 0));
    assert!(!handle_play_queue_hotkey(true, false, 1));
    assert!(!handle_play_queue_hotkey(false, true, 1));
}

#[test]
fn sequence_hotkeys() {
    let b = vec![(0x75u16, "a".to_string()), (0x76, "b".to_string()), (0x75, "c".to_string())];
    assert_eq!(sequence_for_vk(&b, 0x75), Some("a".to_string()));
    assert_eq!(sequence_for_vk(&b, 0x77), None);
    assert_eq!(handle_play_sequence(0x76, false, false, &b), Some("b".to_string()));
    assert_eq!(handle_play_sequence(0x76, true, false, &b), None);
    assert_eq!(handle_play_sequence(0x76, false, true, &b), None);
}

#[test]
fn loaded_events_keep_what_loaded() {
    let r = loaded_events(vec![Some(vec![ev(1)]), None, Some(vec![ev(3)])]);
    assert_eq!(r, vec![vec![ev(1)], vec![ev(3)]]);
}

#[test]
fn bindings_from_sequences() {
    let mut a = Sequence::new("a".to_string(), vec![ev(1)]);
    let b = Sequence::new("b".to_string(), vec![ev(1)]);
    let mut c = Sequence::new("c".to_string(), vec![ev(1)]);
    a.set_hotkey(0x70);
    c.hotkey = Some(HotkeyBinding { modifiers: 0, vk_code: 0x7B });
    let seqs = vec![a, b, c];
    let expected = vec![(0x70u16, "a".to_string()), (0x7B, "c".to_string())];
    assert_eq!(load_all_bindings(&seqs), expected);
    let mut table = vec![(0x71u16, "old".to_string())];
    refresh_bindings(&seqs, &mut table);
    assert_eq!(table, expected);
}

#[test]
fn queue_moves() {
    let mut q = names(&["a", "b", "c"]);
    assert_eq!(queue_move_up(&mut q, 0), None);
    assert_eq!(q, names(&["a", "b", "c"]));
    assert_eq!(queue_move_up(&mut q, 2), Some(1));
    assert_eq!(q, names(&["a", "c", "b"]));
    assert_eq!(queue_move_down(&mut q, 2), None);
    assert_eq!(queue_move_down(&mut q, 1), Some(2));
    assert_eq!(q, names(&["a", "b", "c"]));
    // A selection past the end still moves up, without touching the queue.
    assert_eq!(queue_move_up(&mut q, 7), Some(6));
    assert_eq!(q, names(&["a", "b", "c"]));
}

#[test]
fn move_up_then_down_scenario() {
    let before = names(&["x", "y", "z", "w"]);
    let mut q = before.clone();
    let sel = queue_move_up(&mut q, 2).unwrap();
    queue_move_down(&mut q, sel);
    assert_eq!(q, before);
}

#[test]
fn queue_remove_and_rename() {
    let mut q = names(&["a", "b", "a", "c"]);
    remove_from_queue(&mut q, "a");
    assert_eq!(q, names(&["b", "c"]));
    let mut q = names(&["a", "b", "a"]);
    rename_in_queue(&mut q, "a", &"z".to_string());
    assert_eq!(q, names(&["z", "b", "z"]));
}

#[test]
fn sequence_list_lines() {
    let b = vec![(0x75u16, "combo".to_string()), (0x76, "combo".to_string()), (0x999, "odd".to_string())];
    assert_eq!(sequence_display("combo", &b), "combo [F6]");
    assert_eq!(sequence_display("plain", &b), "plain");
    assert_eq!(sequence_display("odd", &b), "odd [?]");
    assert_eq!(strip_key_suffix("combo [F6]", &b), "combo");
    assert_eq!(strip_key_suffix("plain", &b), "plain");
    assert_eq!(strip_key_suffix("odd [?]", &b), "odd");
    // A suffix is only taken off where it is the key of the name before it.
    assert_eq!(strip_key_suffix("combo [F7]", &b), "combo [F7]");
    assert_eq!(strip_key_suffix("combo [F6]", &Vec::new()), "combo [F6]");
    assert_eq!(strip_key_suffix("a [b]", &b), "a [b]");
    let nested = vec![(0x70u16, "a [b]".to_string())];
    assert_eq!(sequence_display("a [b]", &nested), "a [b] [F1]");
    assert_eq!(strip_key_suffix("a [b] [F1]", &nested), "a [b]");
    assert_eq!(strip_key_suffix("a [b]", &nested), "a [b]");
}

#[test]
fn strip_display_scenario() {
    let b = vec![(0x7Bu16, "boss fight".to_string())];
    let line = sequence_display("boss fight", &b);
    assert_eq!(strip_key_suffix(&line, &b), "boss fight");
    let unbound = sequence_display("x [y]", &b);
    assert_eq!(strip_key_suffix(&unbound, &b), "x [y]");
}

#[test]
fn entered_names() {
    assert_eq!(entered_name("  my seq \t"), Some("my seq".to_string()));
    assert_eq!(entered_name("   "), None);
    assert_eq!(entered_name(""), None);
    assert_eq!(delete_prompt("x"), "Delete \"x\"?");
    assert_eq!(
        rename_conflict_text("y"),
        "A sequence named \"y\" already exists. Choose a different name."
    );
}

#[test]
fn queue_lines_and_generated_names() {
    assert_eq!(queue_display(0, "a"), "1. a");
    assert_eq!(queue_display(9, "b"), "10. b");
    assert_eq!(generate_seq_name(0), "seq_1");
    assert_eq!(generate_seq_name(41), "seq_42");
}

#[test]
fn keys_offered_for_binding() {
    let b = vec![(0x70u16, "a".to_string()), (0x71, "b".to_string())];
    let keys = available_keys_for_binding(0x77, 0x7A, &b, Some("a"));
    let expected: Vec<u16> = vec![
        0x70, 0x72, 0x73, 0x74, 0x75, 0x76, 0x78, 0x79, 0x7B, 0x24, 0x23, 0x2D, 0x13, 0x91,
    ];
    assert_eq!(keys, expected);
    let keys = available_keys_for_binding(0x77, 0x7A, &b, None);
    assert!(!keys.contains(&0x70) && !keys.contains(&0x71));
    assert_eq!(keys.len(), 13);
}

#[test]
fn key_choice_applies() {
    let mut s = Sequence::new("s".to_string(), vec![ev(1)]);
    let avail = vec![0x72u16, 0x73];
    apply_key_choice(&mut s, 2, &avail);
    assert_eq!(s.hotkey, Some(HotkeyBinding { modifiers: 0, vk_code: 0x73 }));
    apply_key_choice(&mut s, 3, &avail);
    assert_eq!(s.hotkey, Some(HotkeyBinding { modifiers: 0, vk_code: 0x73 }));
    apply_key_choice(&mut s, 0, &avail);
    assert_eq!(s.hotkey, None);
}

#[test]
fn settings_choices() {
    assert_eq!(
        settings_choice(7, 10, 0),
        Ok(HotkeyChoice { record_vk: 0x77, stop_vk: 0x7A, queue_vk: None })
    );
    assert_eq!(
        settings_choice(7, 10, 9),
        Ok(HotkeyChoice { record_vk: 0x77, stop_vk: 0x7A, queue_vk: Some(0x78) })
    );
    assert_eq!(settings_choice(7, 7, 0), Err(SettingsError::SameRecordAndStop));
    assert_eq!(settings_choice(7, 10, 8), Err(SettingsError::QueueConflict));
    assert_eq!(settings_choice(17, 10, 0), Err(SettingsError::NoSelection));
    assert_eq!(
        settings_choice(0, 1, 40),
        Ok(HotkeyChoice { record_vk: 0x70, stop_vk: 0x71, queue_vk: None })
    );
    assert_eq!(settings_error_text(SettingsError::NoSelection), None);
    assert_eq!(
        settings_error_text(SettingsError::SameRecordAndStop),
        Some("Record and Stop keys must be different!")
    );
    assert_eq!(
        settings_error_text(SettingsError::QueueConflict),
        Some("Queue key must be different from Record and Stop keys!")
    );
    assert_eq!(combo_index(0x7A), Some(10));
    assert_eq!(combo_index(0x91), Some(16));
    assert_eq!(combo_index(0x41), None);
}

#[test]
fn remote_binding_dialog() {
    assert_eq!(new_remote_binding(false, false, false, 0, "s".to_string()).unwrap_err(), BindingError::NoModifier);
    assert_eq!(new_remote_binding(true, false, false, 48, "s".to_string()).unwrap_err(), BindingError::NoKey);
    assert_eq!(new_remote_binding(false, true, false, 3, String::new()).unwrap_err(), BindingError::NoSequenceName);
    let b = new_remote_binding(true, true, true, 26, "combo".to_string()).unwrap();
    assert_eq!(b.modifiers, 7);
    assert_eq!(b.vk_code, 0x30);
    assert_eq!(b.sequence_name, "combo");
    assert_eq!(binding_error_text(BindingError::NoModifier), "Select at least one modifier (Alt, Ctrl, or Shift)");
    assert_eq!(binding_error_text(BindingError::NoKey), "Select a key");
    assert_eq!(binding_error_text(BindingError::NoSequenceName), "Enter a sequence name");
    assert_eq!(format_binding(3, 0x51, "combo"), "Ctrl+Alt+Q \u{2192} combo");
    assert_eq!(format_binding(4, 0x7B, "x"), "Shift+F12 \u{2192} x");
    assert_eq!(format_binding(2, 0x13, "y"), "Ctrl+? \u{2192} y");
}

#[test]
fn status_lines() {
    assert_eq!(status_text(true, true, true, true), "Recording...");
    assert_eq!(status_text(false, true, true, false), "Playing (loop)");
    assert_eq!(status_text(false, true, false, false), "Playing...");
    assert_eq!(status_text(false, false, false, true), "Idle (Recv)");
    assert_eq!(status_text(false, false, false, false), "Idle");
    assert_eq!(record_button_text(true), "Stop");
    assert_eq!(record_button_text(false), "Record");
    assert_eq!(play_button_text(true), "Stop");
    assert_eq!(play_button_text(false), "Play");
    assert_eq!(receiver_status(true, Some("x".to_string())), "Listening");
    assert_eq!(receiver_status(false, Some("bind failed".to_string())), "Error: bind failed");
    assert_eq!(receiver_status(false, None), "Idle");
    assert_eq!(receiver_button_text(true), "Stop Listening");
    assert_eq!(receiver_button_text(false), "Start Listening");
    assert_eq!(listener_started_status(9847, &Ok(())), "Listening on port 9847");
    assert_eq!(listener_started_status(1, &Err("in use".to_string())), "Error: in use");
}

#[test]
fn sender_lines() {
    assert_eq!(send_play_request(""), Err("Enter a code (sequence name)"));
    assert_eq!(send_play_request("abc"), Ok("PLAY abc".to_string()));
    assert_eq!(send_request_status(0), Err("Add at least one host"));
    assert_eq!(send_request_status(3), Ok("Sending to 3 host(s)...".to_string()));
    assert_eq!(send_result_text("10.0.0.2", &Ok("OK".to_string())), "10.0.0.2: OK (OK)");
    assert_eq!(send_result_text("h", &Err("refused".to_string())), "h: Error (refused)");
}

#[test]
fn color_lines() {
    assert_eq!(color_text(0x00102030), "R:48 G:32 B:16");
    assert_eq!(color_text(0x00FFFFFF), "R:255 G:255 B:255");
    assert_eq!(color_text(0), "R:0 G:0 B:0");
}

use ranitask::gui::{parse_coordinate, pick_live_text, sample_text};
use ranitask::hp_monitor::CLR_INVALID;

#[test]
fn coordinates_from_edit_boxes() {
    let mut units: Vec<u16> = "-120".encode_utf16().collect();
    units.resize(16, 0);
    assert_eq!(parse_coordinate(&units), Some(-120));
    let mut units: Vec<u16> = "37".encode_utf16().collect();
    units.push(0);
    units.extend("99".encode_utf16());
    assert_eq!(parse_coordinate(&units), Some(37));
    // Each unit is cut to its low byte: U+0131 becomes '1'.
    let units: Vec<u16> = vec![0x0131, 0x0032, 0];
    assert_eq!(parse_coordinate(&units), Some(12));
    assert_eq!(parse_coordinate(&vec![0u16; 16]), None);
    let units: Vec<u16> = "x1".encode_utf16().collect();
    assert_eq!(parse_coordinate(&units), None);
}

#[test]
fn picking_lines() {
    assert_eq!(pick_live_text(-5, 12, 0x00010203), "X:-5 Y:12 | R:3 G:2 B:1");
    assert_eq!(pick_live_text(0, 0, CLR_INVALID), "X:0 Y:0 | (unreadable)");
    assert_eq!(pick_live_text(i32::MIN, i32::MAX, 0), "X:-2147483648 Y:2147483647 | R:0 G:0 B:0");
    assert_eq!(sample_text(CLR_INVALID), "(invalid pixel)");
    assert_eq!(sample_text(0x000000FF), "R:255 G:0 B:0");
}

use ranitask::gui::reference_color_text;
use ranitask::hp_monitor::monitor_configured;

#[test]
fn reference_color_lines() {
    assert_eq!(reference_color_text(0), "(not sampled)");
    assert_eq!(reference_color_text(0x00FF0001), "R:1 G:0 B:255");
    assert!(!monitor_configured(0));
    assert!(monitor_configured(0x000001));
}

use ranitask::config::AppConfig;
use ranitask::gui::{apply_hotkey_choice, settings_action, SettingsAction};

#[test]
fn settings_save_only_when_registered() {
    let keys = HotkeyChoice { record_vk: 0x70, stop_vk: 0x71, queue_vk: Some(0x72) };
    assert!(matches!(settings_action(Ok(keys), true), SettingsAction::SaveAndClose(k) if k == keys));
    match settings_action(Ok(keys), false) {
        SettingsAction::ShowError(m) => assert_eq!(m, "Failed to register hotkeys.\nKey may be in use."),
        other => panic!("unexpected {:?}", other),
    }
    assert!(matches!(settings_action(Err(SettingsError::NoSelection), true), SettingsAction::Stay));
    match settings_action(Err(SettingsError::SameRecordAndStop), true) {
        SettingsAction::ShowError(m) => assert_eq!(m, "Record and Stop keys must be different!"),
        other => panic!("unexpected {:?}", other),
    }
    match settings_action(Err(SettingsError::QueueConflict), true) {
        SettingsAction::ShowError(m) => assert_eq!(m, "Queue key must be different from Record and Stop keys!"),
        other => panic!("unexpected {:?}", other),
    }
    let mut c = AppConfig::default();
    c.default_sequence = Some("d".to_string());
    apply_hotkey_choice(&mut c, keys);
    assert_eq!((c.record_vk, c.stop_vk, c.queue_vk), (0x70, 0x71, Some(0x72)));
    assert_eq!(c.default_sequence, Some("d".to_string()));
    assert_eq!(c.remote_port, 9847);
}
