//! The application's settings and the edits that the dialogs make to them.

use vstd::prelude::*;
use crate::sequence::RemoteBinding;
use crate::text::{chars_of, chars_eq, str_eq};

verus! {

/// The default record hotkey, F8.
pub const DEFAULT_RECORD_VK: u16 = 0x77;

/// The default stop hotkey, F11.
pub const DEFAULT_STOP_VK: u16 = 0x7A;

/// The receiver's port where the settings name none.
pub const DEFAULT_REMOTE_PORT: u16 = 9847;

/// The settings, as saved in `config.json`.
#[derive(Clone, Debug)]
pub struct AppConfig {
    pub record_vk: u16,
    pub stop_vk: u16,
    pub loop_playback: bool,
    pub always_on_top: bool,
    pub remote_port: u16,
    pub remote_password: String,
    pub remote_auto_listen: bool,
    pub remote_hosts: Vec<String>,
    pub remote_bindings: Vec<RemoteBinding>,
    pub shuffle_queue: bool,
    pub queue_vk: Option<u16>,
    pub default_sequence: Option<String>,
}

/// The receiver's port where the settings name none.
pub fn default_remote_port() -> (p: u16)
    ensures
        p == DEFAULT_REMOTE_PORT,
{
    DEFAULT_REMOTE_PORT
}

impl Default for AppConfig {
    /// F8 records, F11 stops, no looping, always on top, the receiver on port
    /// 9847 without password, no hosts, no bindings, no shuffle, no queue key
    /// and no default sequence.
    fn default() -> (c: Self)
        ensures
            c.record_vk == DEFAULT_RECORD_VK,
            c.stop_vk == DEFAULT_STOP_VK,
            !c.loop_playback,
            c.always_on_top,
            c.remote_port == DEFAULT_REMOTE_PORT,
            c.remote_password@ == Seq::<char>::empty(),
            !c.remote_auto_listen,
            c.remote_hosts@.len() == 0,
            c.remote_bindings@.len() == 0,
            !c.shuffle_queue,
            c.queue_vk is None,
            c.default_sequence is None,
    {
        AppConfig {
            record_vk: DEFAULT_RECORD_VK,
            stop_vk: DEFAULT_STOP_VK,
            loop_playback: false,
            always_on_top: true,
            remote_port: default_remote_port(),
            remote_password: String::new(),
            remote_auto_listen: false,
            remote_hosts: Vec::new(),
            remote_bindings: Vec::new(),
            shuffle_queue: false,
            queue_vk: None,
            default_sequence: None,
        }
    }
}

/// A password as the network code takes it: none where it is empty.
pub fn optional_password(password: &String) -> (r: Option<String>)
    ensures
        password@.len() == 0 ==> r is None,
        password@.len() > 0 ==> (r matches Some(p) && p@ == password@),
{
    if password.as_str().is_empty() {
        None
    } else {
        Some(password.clone())
    }
}

/// The sequence loaded at start-up for the play hotkey: the default sequence
/// where one is set, else the last of the saved sequences in listing order.
pub fn startup_sequence(cfg: &AppConfig, listed: &Vec<String>) -> (r: Option<String>)
    ensures
        cfg.default_sequence matches Some(d) ==> (r matches Some(n) && n@ == d@),
        cfg.default_sequence is None && listed@.len() == 0 ==> r is None,
        cfg.default_sequence is None && listed@.len() > 0 ==> (r matches Some(n) && n@
            == listed@.last()@),
{
    match &cfg.default_sequence {
        Some(d) => Some(d.clone()),
        None => {
            if listed.len() == 0 {
                None
            } else {
                Some(listed[listed.len() - 1].clone())
            }
        },
    }
}

/// Whether the receiver starts with the application: where the settings ask
/// for it and name a port.
pub fn should_auto_listen(cfg: &AppConfig) -> (b: bool)
    ensures
        b == (cfg.remote_auto_listen && cfg.remote_port > 0),
{
    cfg.remote_auto_listen && cfg.remote_port > 0
}

/// After a sequence was deleted: no default sequence where it was the
/// default. Says whether the settings changed.
pub fn forget_default_sequence(cfg: &mut AppConfig, deleted: &str) -> (changed: bool)
    ensures
        changed == (old(cfg).default_sequence matches Some(d) && d@ == deleted@),
        changed ==> *final(cfg) == (AppConfig { default_sequence: None, ..*old(cfg) }),
        !changed ==> *final(cfg) == *old(cfg),
{
    let is_default = match &cfg.default_sequence {
        Some(d) => str_eq(d.as_str(), deleted),
        None => false,
    };
    if is_default {
        cfg.default_sequence = None;
    }
    is_default
}

/// After a sequence was renamed: the new file name as the default where the
/// old one was. Says whether the settings changed.
pub fn rename_default_sequence(cfg: &mut AppConfig, old_name: &str, new_name: String) -> (changed:
    bool)
    ensures
        changed == (old(cfg).default_sequence matches Some(d) && d@ == old_name@),
        changed ==> *final(cfg) == (AppConfig { default_sequence: Some(new_name), ..*old(cfg) }),
        !changed ==> *final(cfg) == *old(cfg),
{
    let is_default = match &cfg.default_sequence {
        Some(d) => str_eq(d.as_str(), old_name),
        None => false,
    };
    if is_default {
        cfg.default_sequence = Some(new_name);
    }
    is_default
}

/// Remove the entry at `index` of a list, where there is one.
pub fn remove_at<T>(items: &mut Vec<T>, index: usize)
    ensures
        index < old(items)@.len() ==> final(items)@ == old(items)@.remove(index as int),
        index >= old(items)@.len() ==> final(items)@ == old(items)@,
{
    if index < items.len() {
        items.remove(index);
    }
}

/// Add a receiver host; an empty name is ignored. Says whether it was added.
pub fn add_remote_host(cfg: &mut AppConfig, host: String) -> (added: bool)
    ensures
        added == (host@.len() > 0),
        added ==> final(cfg).remote_hosts@ == old(cfg).remote_hosts@.push(host),
        added ==> *final(cfg) == (AppConfig { remote_hosts: final(cfg).remote_hosts, ..*old(cfg) }),
        !added ==> *final(cfg) == *old(cfg),
{
    if host.as_str().is_empty() {
        return false;
    }
    cfg.remote_hosts.push(host);
    true
}

} // verus!
