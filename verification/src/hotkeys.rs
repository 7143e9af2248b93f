//! The global hotkeys: which key press means what, and which keys a
//! recording leaves out because they drive the application itself.

use vstd::prelude::*;
use crate::config::AppConfig;
use crate::sequence::RemoteBinding;
use crate::recorder::key_event_spec;

verus! {

/// What a global hotkey asks for.
#[derive(Clone, Copy, Debug, PartialEq, Eq, Structural)]
pub enum Hotkey {
    /// The record key: start or stop recording.
    ToggleRecord,
    /// The stop key: start or stop playback.
    PlayStop,
    /// The queue key: play the queue.
    PlayQueue,
    /// A sequence hotkey: play the sequence bound to this key.
    PlaySequence(u16),
    /// A remote hotkey: send the binding at this position to the receivers.
    RemoteSend(usize),
}

/// The sequence bindings hold a binding of `vk`.
pub open spec fn bound_key(bindings: Seq<(u16, String)>, vk: u16) -> bool {
    exists|i: int| 0 <= i < bindings.len() && #[trigger] bindings[i].0 == vk
}

/// Some remote binding is for `modifiers` and `vk`.
pub open spec fn remote_match(remote: Seq<RemoteBinding>, modifiers: u32, vk: u16, i: int) -> bool {
    0 <= i < remote.len() && remote[i].modifiers == modifiers && remote[i].vk_code == vk
}

/// What a key press means. With modifiers held it is the first remote
/// binding of those modifiers and that key; without, the record key, then the
/// stop key, then the queue key, then a sequence hotkey.
pub open spec fn hotkey_spec(
    vk: u16,
    modifiers: u32,
    cfg: AppConfig,
    bindings: Seq<(u16, String)>,
) -> Option<Hotkey> {
    if modifiers != 0 {
        if exists|i: int| remote_match(cfg.remote_bindings@, modifiers, vk, i) {
            Some(
                Hotkey::RemoteSend(
                    (choose|i: int|
                        remote_match(cfg.remote_bindings@, modifiers, vk, i) && forall|k: int|
                            0 <= k < i ==> !remote_match(cfg.remote_bindings@, modifiers, vk, k)) as usize,
                ),
            )
        } else {
            None
        }
    } else if vk == cfg.record_vk {
        Some(Hotkey::ToggleRecord)
    } else if vk == cfg.stop_vk {
        Some(Hotkey::PlayStop)
    } else if cfg.queue_vk == Some(vk) {
        Some(Hotkey::PlayQueue)
    } else if bound_key(bindings, vk) {
        Some(Hotkey::PlaySequence(vk))
    } else {
        None
    }
}

/// What the key press `vk`, with the modifier flags `modifiers` held, means.
pub fn hotkey_for(vk: u16, modifiers: u32, cfg: &AppConfig, bindings: &Vec<(u16, String)>) -> (r:
    Option<Hotkey>)
    ensures
        r == hotkey_spec(vk, modifiers, *cfg, bindings@),
{
    if modifiers != 0 {
        let remote = &cfg.remote_bindings;
        let mut i: usize = 0;
        while i < remote.len()
            invariant
                i <= remote.len(),
                remote == &cfg.remote_bindings,
                modifiers != 0,
                forall|k: int| 0 <= k < i ==> !remote_match(remote@, modifiers, vk, k),
            decreases remote.len() - i,
        {
            if remote[i].modifiers == modifiers && remote[i].vk_code == vk {
                proof {
                    assert(remote_match(remote@, modifiers, vk, i as int) && forall|k: int|
                        0 <= k < i ==> !remote_match(remote@, modifiers, vk, k));
                    let j = choose|j: int|
                        remote_match(remote@, modifiers, vk, j) && forall|k: int|
                            0 <= k < j ==> !remote_match(remote@, modifiers, vk, k);
                    assert(remote_match(remote@, modifiers, vk, i as int));
                    assert(j == i as int) by {
                        if j < i {
                            assert(!remote_match(remote@, modifiers, vk, j));
                        } else if j > i {
                            assert(remote_match(remote@, modifiers, vk, i as int));
                        }
                    }
                }
                return Some(Hotkey::RemoteSend(i));
            }
            i = i + 1;
        }
        return None;
    }
    if vk == cfg.record_vk {
        return Some(Hotkey::ToggleRecord);
    }
    if vk == cfg.stop_vk {
        return Some(Hotkey::PlayStop);
    }
    match cfg.queue_vk {
        Some(q) => {
            if q == vk {
                return Some(Hotkey::PlayQueue);
            }
        },
        None => {},
    }
    let mut i: usize = 0;
    while i < bindings.len()
        invariant
            i <= bindings.len(),
            modifiers == 0,
            vk != cfg.record_vk,
            vk != cfg.stop_vk,
            cfg.queue_vk != Some(vk),
            forall|k: int| 0 <= k < i ==> bindings@[k].0 != vk,
        decreases bindings.len() - i,
    {
        if bindings[i].0 == vk {
            assert(bound_key(bindings@, vk));
            return Some(Hotkey::PlaySequence(vk));
        }
        i = i + 1;
    }
    None
}

/// The sequence named by the remote binding at `index`, where there is one.
pub fn remote_binding_at(remote: &Vec<RemoteBinding>, index: usize) -> (r: Option<String>)
    ensures
        index < remote@.len() ==> (r matches Some(n) && n@ == remote@[index as int].sequence_name@),
        index >= remote@.len() ==> r is None,
{
    if index < remote.len() {
        Some(remote[index].sequence_name.clone())
    } else {
        None
    }
}

/// The keys that drive the application (record, stop, queue and the sequence
/// hotkeys), which a recording does not capture.
pub open spec fn hotkey_keys(cfg: AppConfig, bindings: Seq<(u16, String)>) -> Seq<u16> {
    seq![cfg.record_vk, cfg.stop_vk] + (match cfg.queue_vk {
        Some(q) => seq![q],
        None => Seq::empty(),
    }) + bindings.map_values(|b: (u16, String)| b.0)
}

/// The keys that a recording leaves out.
pub fn all_hotkey_vks(cfg: &AppConfig, bindings: &Vec<(u16, String)>) -> (keys: Vec<u16>)
    ensures
        keys@ == hotkey_keys(*cfg, bindings@),
{
    let mut keys: Vec<u16> = Vec::new();
    keys.push(cfg.record_vk);
    keys.push(cfg.stop_vk);
    if let Some(q) = cfg.queue_vk {
        keys.push(q);
    }
    let ghost head = keys@;
    let mut i: usize = 0;
    while i < bindings.len()
        invariant
            i <= bindings.len(),
            keys@ == head + bindings@.take(i as int).map_values(|b: (u16, String)| b.0),
        decreases bindings.len() - i,
    {
        keys.push(bindings[i].0);
        i = i + 1;
        assert(keys@ =~= head + bindings@.take(i as int).map_values(|b: (u16, String)| b.0));
    }
    assert(bindings@.take(i as int) =~= bindings@);
    assert(keys@ =~= hotkey_keys(*cfg, bindings@));
    keys
}

/// A recording never captures the keys that drive the application: a key
/// press that means a hotkey without modifiers (record, stop, queue or a
/// sequence hotkey) is left out by the keyboard hook whose filter is
/// `hotkey_keys`.
pub proof fn lemma_hotkeys_not_recorded(
    msg: u32,
    vk_code: u32,
    scan_code: u32,
    flags: u32,
    cfg: AppConfig,
    bindings: Seq<(u16, String)>,
)
    requires
        vk_code < 65536,
        hotkey_spec(vk_code as u16, 0, cfg, bindings) is Some,
    ensures
        key_event_spec(msg, vk_code, scan_code, flags, hotkey_keys(cfg, bindings)) is None,
{
    let vk = vk_code as u16;
    assert((vk_code as int % 65536) as u16 == vk);
    let keys = hotkey_keys(cfg, bindings);
    let head = seq![cfg.record_vk, cfg.stop_vk] + (match cfg.queue_vk {
        Some(q) => seq![q],
        None => Seq::<u16>::empty(),
    });
    let tail = bindings.map_values(|b: (u16, String)| b.0);
    assert(keys == head + tail);
    if vk == cfg.record_vk {
        assert(keys[0] == vk);
    } else if vk == cfg.stop_vk {
        assert(keys[1] == vk);
    } else if cfg.queue_vk == Some(vk) {
        assert(keys[2] == vk);
    } else {
        let i = choose|i: int| 0 <= i < bindings.len() && #[trigger] bindings[i].0 == vk;
        assert(tail[i] == vk);
        assert(keys[head.len() + i] == vk);
    }
    assert(keys.contains(vk));
}

} // verus!
