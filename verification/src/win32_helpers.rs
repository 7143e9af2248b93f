//! The hotkey tables and their names, and UTF-16 text for the Windows API.

use vstd::prelude::*;
use crate::text::chars_of;

verus! {

broadcast use vstd::seq_lib::group_seq_properties;

/// The keys offered for the record, stop, queue and sequence hotkeys.
pub const KEY_OPTION_VKS: [u16; 17] = [
    0x70, 0x71, 0x72, 0x73, 0x74, 0x75, 0x76, 0x77, 0x78, 0x79, 0x7A, 0x7B, 0x24, 0x23, 0x2D, 0x13,
    0x91,
];

/// The names of the keys of `KEY_OPTION_VKS`, in the same order.
pub const KEY_OPTION_NAMES: [&'static str; 17] = [
    "F1", "F2", "F3", "F4", "F5", "F6", "F7", "F8", "F9", "F10", "F11", "F12", "Home", "End",
    "Insert", "Pause", "ScrollLock",
];

/// The keys offered for remote hotkeys: A-Z, 0-9 and F1-F12.
pub const REMOTE_KEY_OPTION_VKS: [u16; 48] = [
    0x41, 0x42, 0x43, 0x44, 0x45, 0x46, 0x47, 0x48, 0x49, 0x4A, 0x4B, 0x4C, 0x4D, 0x4E, 0x4F, 0x50,
    0x51, 0x52, 0x53, 0x54, 0x55, 0x56, 0x57, 0x58, 0x59, 0x5A, 0x30, 0x31, 0x32, 0x33, 0x34, 0x35,
    0x36, 0x37, 0x38, 0x39, 0x70, 0x71, 0x72, 0x73, 0x74, 0x75, 0x76, 0x77, 0x78, 0x79, 0x7A, 0x7B,
];

/// The names of the keys of `REMOTE_KEY_OPTION_VKS`, in the same order.
pub const REMOTE_KEY_OPTION_NAMES: [&'static str; 48] = [
    "A", "B", "C", "D", "E", "F", "G", "H", "I", "J", "K", "L", "M", "N", "O", "P", "Q", "R", "S",
    "T", "U", "V", "W", "X", "Y", "Z", "0", "1", "2", "3", "4", "5", "6", "7", "8", "9", "F1", "F2",
    "F3", "F4", "F5", "F6", "F7", "F8", "F9", "F10", "F11", "F12",
];

/// The keys offered for the record, stop, queue and sequence hotkeys, each
/// with its name: `KEY_OPTION_VKS` and `KEY_OPTION_NAMES` side by side.
pub const KEY_OPTIONS: [(u16, &'static str); 17] = [
    (0x70, "F1"), (0x71, "F2"), (0x72, "F3"), (0x73, "F4"), (0x74, "F5"), (0x75, "F6"),
    (0x76, "F7"), (0x77, "F8"), (0x78, "F9"), (0x79, "F10"), (0x7A, "F11"), (0x7B, "F12"),
    (0x24, "Home"), (0x23, "End"), (0x2D, "Insert"), (0x13, "Pause"), (0x91, "ScrollLock"),
];

/// The keys offered for remote hotkeys, each with its name:
/// `REMOTE_KEY_OPTION_VKS` and `REMOTE_KEY_OPTION_NAMES` side by side.
pub const REMOTE_KEY_OPTIONS: [(u16, &'static str); 48] = [
    (0x41, "A"), (0x42, "B"), (0x43, "C"), (0x44, "D"), (0x45, "E"), (0x46, "F"), (0x47, "G"),
    (0x48, "H"), (0x49, "I"), (0x4A, "J"), (0x4B, "K"), (0x4C, "L"), (0x4D, "M"), (0x4E, "N"),
    (0x4F, "O"), (0x50, "P"), (0x51, "Q"), (0x52, "R"), (0x53, "S"), (0x54, "T"), (0x55, "U"),
    (0x56, "V"), (0x57, "W"), (0x58, "X"), (0x59, "Y"), (0x5A, "Z"), (0x30, "0"), (0x31, "1"),
    (0x32, "2"), (0x33, "3"), (0x34, "4"), (0x35, "5"), (0x36, "6"), (0x37, "7"), (0x38, "8"),
    (0x39, "9"), (0x70, "F1"), (0x71, "F2"), (0x72, "F3"), (0x73, "F4"), (0x74, "F5"),
    (0x75, "F6"), (0x76, "F7"), (0x77, "F8"), (0x78, "F9"), (0x79, "F10"), (0x7A, "F11"),
    (0x7B, "F12"),
];

/// The paired tables hold the same keys and names as the separate ones.
pub proof fn lemma_key_tables_agree()
    ensures
        forall|i: int| 0 <= i < 17 ==> #[trigger] KEY_OPTIONS@[i] == (KEY_OPTION_VKS@[i], KEY_OPTION_NAMES@[i]),
        forall|i: int| 0 <= i < 48 ==> #[trigger] REMOTE_KEY_OPTIONS@[i] == (
            REMOTE_KEY_OPTION_VKS@[i],
            REMOTE_KEY_OPTION_NAMES@[i],
        ),
{
}

/// The name of `vk` in a table of keys and names: that of its first entry, or
/// `?` where it has none.
pub open spec fn table_name(vks: Seq<u16>, names: Seq<&str>, vk: u16) -> Seq<char> {
    if exists|i: int| 0 <= i < vks.len() && vks[i] == vk {
        names[choose|i: int|
            0 <= i < vks.len() && vks[i] == vk && forall|k: int| 0 <= k < i ==> vks[k] != vk]@
    } else {
        "?"@
    }
}

fn lookup_name(vks: &[u16], names: &[&'static str], vk: u16) -> (r: &'static str)
    requires
        vks@.len() == names@.len(),
    ensures
        r@ == table_name(vks@, names@, vk),
{
    let mut i: usize = 0;
    while i < vks.len()
        invariant
            i <= vks@.len() == names@.len(),
            forall|k: int| 0 <= k < i ==> vks@[k] != vk,
        decreases vks.len() - i,
    {
        if vks[i] == vk {
            let ghost j = choose|j: int|
                0 <= j < vks@.len() && vks@[j] == vk && forall|k: int| 0 <= k < j ==> vks@[k] != vk;
            assert(j == i as int) by {
                if j < i {
                    assert(vks@[j] != vk);
                } else if j > i {
                    assert(vks@[i as int] != vk);
                }
            }
            return names[i];
        }
        i = i + 1;
    }
    "?"
}

/// The name of a hotkey, `?` for a key that is not offered.
pub fn vk_name(vk: u16) -> (r: &'static str)
    ensures
        r@ == table_name(KEY_OPTION_VKS@, KEY_OPTION_NAMES@, vk),
{
    lookup_name(&KEY_OPTION_VKS, &KEY_OPTION_NAMES, vk)
}

/// The name of a remote hotkey, `?` for a key that is not offered.
pub fn remote_vk_name(vk: u16) -> (r: &'static str)
    ensures
        r@ == table_name(REMOTE_KEY_OPTION_VKS@, REMOTE_KEY_OPTION_NAMES@, vk),
{
    lookup_name(&REMOTE_KEY_OPTION_VKS, &REMOTE_KEY_OPTION_NAMES, vk)
}

// ---- UTF-16 ----

/// The UTF-16 code units of one character.
pub open spec fn utf16_units(c: char) -> Seq<u16> {
    let v = c as u32 as int;
    if v < 0x10000 {
        seq![v as u16]
    } else {
        seq![(0xD800 + (v - 0x10000) / 1024) as u16, (0xDC00 + (v - 0x10000) % 1024) as u16]
    }
}

/// The UTF-16 encoding of a text.
pub open spec fn utf16_encode(s: Seq<char>) -> Seq<u16>
    decreases s.len(),
{
    if s.len() == 0 {
        Seq::empty()
    } else {
        utf16_encode(s.drop_last()) + utf16_units(s.last())
    }
}

/// `s` in UTF-16, with a terminating NUL, as the wide-string Windows API
/// takes it.
pub fn wide(s: &str) -> (w: Vec<u16>)
    ensures
        w@ == utf16_encode(s@).push(0u16),
{
    let cs = chars_of(s);
    let mut w: Vec<u16> = Vec::new();
    let mut i: usize = 0;
    while i < cs.len()
        invariant
            i <= cs.len(),
            cs@ == s@,
            w@ == utf16_encode(s@.take(i as int)),
        decreases cs.len() - i,
    {
        let c = cs[i];
        let v = c as u32;
        proof {
            vstd::utf8::char_is_scalar(c);
        }
        assert(s@.take(i + 1).last() == c);
        let ghost before = w@;
        if v < 0x10000 {
            w.push(v as u16);
        } else {
            let u = v - 0x10000;
            w.push((0xD800 + u / 1024) as u16);
            w.push((0xDC00 + u % 1024) as u16);
        }
        assert(s@.take(i + 1).drop_last() =~= s@.take(i as int));
        assert(w@ =~= before + utf16_units(c));
        assert(w@ =~= utf16_encode(s@.take(i + 1)));
        i = i + 1;
    }
    assert(s@.take(i as int) =~= s@);
    w.push(0);
    w
}

} // verus!
