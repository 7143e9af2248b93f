use ranitask::config::AppConfig;
use ranitask::hotkeys::{all_hotkey_vks, hotkey_for, remote_binding_at, Hotkey};
use ranitask::sequence::RemoteBinding;

fn config() -> AppConfig {
    let mut c = AppConfig::default();
    c.queue_vk = Some(0x78);
    c.remote_bindings = vec![
        RemoteBinding { modifiers: 2, vk_code: 0x41, sequence_name: "a".to_string() },
        RemoteBinding { modifiers: 1, vk_code: 0x41, sequence_name: "b".to_string() },
        RemoteBinding { modifiers: 2, vk_code: 0x41, sequence_name: "c".to_string() },
    ];
    c
}

#[test]
fn plain_hotkeys() {
    let c = config();
    let b = vec![(0x75u16, "s".to_string())];
    assert_eq!(hotkey_for(0x77, 0, &c, &b), Some(Hotkey::ToggleRecord));
    assert_eq!(hotkey_for(0x7A, 0, &c, &b), Some(Hotkey::PlayStop));
    assert_eq!(hotkey_for(0x78, 0, &c, &b), Some(Hotkey::PlayQueue));
    assert_eq!(hotkey_for(0x75, 0, &c, &b), Some(Hotkey::PlaySequence(0x75)));
    assert_eq!(hotkey_for(0x41, 0, &c, &b), None);
}

#[test]
fn remote_hotkeys_take_the_first_binding() {
    let c = config();
    let b = Vec::new();
    assert_eq!(hotkey_for(0x41, 2, &c, &b), Some(Hotkey::RemoteSend(0)));
    assert_eq!(hotkey_for(0x41, 1, &c, &b), Some(Hotkey::RemoteSend(1)));
    assert_eq!(hotkey_for(0x41, 3, &c, &b), None);
    assert_eq!(hotkey_for(0x77, 4, &c, &b), None);
    assert_eq!(remote_binding_at(&c.remote_bindings, 1), Some("b".to_string()));
    assert_eq!(remote_binding_at(&c.remote_bindings, 3), None);
}

#[test]
fn keys_left_out_of_recordings() {
    let c = config();
    let b = vec![(0x75u16, "s".to_string()), (0x70, "t".to_string())];
    assert_eq!(all_hotkey_vks(&c, &b), vec![0x77, 0x7A, 0x78, 0x75, 0x70]);
    let d = AppConfig::default();
    assert_eq!(all_hotkey_vks(&d, &Vec::new()), vec![0x77, 0x7A]);
}
