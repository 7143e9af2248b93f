use ranitask::config::{
    add_remote_host, default_remote_port, forget_default_sequence, optional_password, remove_at,
    rename_default_sequence, should_auto_listen, startup_sequence, AppConfig, DEFAULT_RECORD_VK,
    DEFAULT_STOP_VK,
};

#[test]
fn defaults() {
    let c = AppConfig::default();
    assert_eq!(c.record_vk, 0x77);
    assert_eq!(c.stop_vk, 0x7A);
    assert_eq!(DEFAULT_RECORD_VK, 0x77);
    assert_eq!(DEFAULT_STOP_VK, 0x7A);
    assert!(!c.loop_playback);
    assert!(c.always_on_top);
    assert_eq!(c.remote_port, 9847);
    assert_eq!(default_remote_port(), 9847);
    assert!(c.remote_password.is_empty());
    assert!(!c.remote_auto_listen);
    assert!(c.remote_hosts.is_empty());
    assert!(c.remote_bindings.is_empty());
    assert!(!c.shuffle_queue);
    assert_eq!(c.queue_vk, None);
    assert_eq!(c.default_sequence, None);
}

#[test]
fn passwords_and_auto_listen() {
    assert_eq!(optional_password(&String::new()), None);
    assert_eq!(optional_password(&"pw".to_string()), Some("pw".to_string()));
    let mut c = AppConfig::default();
    assert!(!should_auto_listen(&c));
    c.remote_auto_listen = true;
    assert!(should_auto_listen(&c));
    c.remote_port = 0;
    assert!(!should_auto_listen(&c));
}

#[test]
fn default_sequence_follows_delete_and_rename() {
    let mut c = AppConfig::default();
    c.default_sequence = Some("a".to_string());
    assert!(!forget_default_sequence(&mut c, "b"));
    assert_eq!(c.default_sequence, Some("a".to_string()));
    assert!(rename_default_sequence(&mut c, "a", "a2".to_string()));
    assert_eq!(c.default_sequence, Some("a2".to_string()));
    assert!(!rename_default_sequence(&mut c, "a", "zz".to_string()));
    assert_eq!(c.default_sequence, Some("a2".to_string()));
    assert!(forget_default_sequence(&mut c, "a2"));
    assert_eq!(c.default_sequence, None);
    assert!(!forget_default_sequence(&mut c, "a2"));
}

#[test]
fn startup_sequence_choice() {
    let mut c = AppConfig::default();
    let listed = vec!["a".to_string(), "b".to_string()];
    assert_eq!(startup_sequence(&c, &listed), Some("b".to_string()));
    assert_eq!(startup_sequence(&c, &Vec::new()), None);
    c.default_sequence = Some("d".to_string());
    assert_eq!(startup_sequence(&c, &listed), Some("d".to_string()));
}

#[test]
fn hosts_and_list_removal() {
    let mut c = AppConfig::default();
    assert!(!add_remote_host(&mut c, String::new()));
    assert!(add_remote_host(&mut c, "10.0.0.5".to_string()));
    assert!(add_remote_host(&mut c, "pc2".to_string()));
    assert_eq!(c.remote_hosts, vec!["10.0.0.5".to_string(), "pc2".to_string()]);
    remove_at(&mut c.remote_hosts, 5);
    assert_eq!(c.remote_hosts.len(), 2);
    remove_at(&mut c.remote_hosts, 0);
    assert_eq!(c.remote_hosts, vec!["pc2".to_string()]);
}
