//! The decisions behind the toolbar, its hotkeys and the sequence and queue
//! windows.

use vstd::prelude::*;
use crate::sequence::{InputEvent, Sequence};
use crate::config::AppConfig;
use crate::text::{
    chars_of, chars_eq, str_eq, push_str, push_decimal, decimal_digits, string_of, trim, trim_chars,
    latin1_char, parse_i32, parse_i32_spec, push_signed_decimal, signed_digits,
};
use crate::win32_helpers::{
    KEY_OPTION_VKS, KEY_OPTION_NAMES, REMOTE_KEY_OPTION_VKS, REMOTE_KEY_OPTION_NAMES, table_name,
    vk_name, remote_vk_name,
};
use crate::sequence::{HotkeyBinding, RemoteBinding};
use crate::hp_monitor::{red, green, blue, CLR_INVALID};

verus! {

broadcast use vstd::seq_lib::group_seq_properties;

// ---- Toolbar and hotkeys ----

/// What the record button or hotkey does.
#[derive(Clone, Copy, Debug, PartialEq, Eq, Structural)]
pub enum RecordToggle {
    /// Stop the recording and offer what it caught for saving.
    StopRecording,
    /// Nothing: recording cannot start during playback.
    Ignore,
    StartRecording,
}

/// The record toggle: stop a running recording, start one unless playing.
pub fn handle_record_toggle(recording: bool, playing: bool) -> (t: RecordToggle)
    ensures
        t == (if recording {
            RecordToggle::StopRecording
        } else if playing {
            RecordToggle::Ignore
        } else {
            RecordToggle::StartRecording
        }),
{
    if recording {
        RecordToggle::StopRecording
    } else if playing {
        RecordToggle::Ignore
    } else {
        RecordToggle::StartRecording
    }
}

/// What a stopped recording leaves to be saved: its events, where there are any.
pub fn recording_to_save(events: Option<Vec<InputEvent>>) -> (r: Option<Vec<InputEvent>>)
    ensures
        r is Some <==> (events matches Some(v) && v@.len() > 0),
        r matches Some(v) ==> events == Some(v),
{
    match events {
        Some(v) => {
            if v.len() > 0 {
                Some(v)
            } else {
                None
            }
        },
        None => None,
    }
}

/// What the play button or hotkey does.
#[derive(Clone, Copy, Debug, PartialEq, Eq, Structural)]
pub enum PlayToggle {
    CancelPlayback,
    /// Nothing: playback cannot start during a recording.
    Ignore,
    /// Play the queue, which is not empty.
    PlayQueue,
    /// Play the default sequence, or else the last recorded events.
    PlayDefault,
}

/// The play toggle: cancel a running playback; otherwise, unless recording,
/// play the queue where it has entries and the default sequence where not.
pub fn handle_play_toggle(playing: bool, recording: bool, queue_len: usize) -> (t: PlayToggle)
    ensures
        t == (if playing {
            PlayToggle::CancelPlayback
        } else if recording {
            PlayToggle::Ignore
        } else if queue_len > 0 {
            PlayToggle::PlayQueue
        } else {
            PlayToggle::PlayDefault
        }),
{
    if playing {
        PlayToggle::CancelPlayback
    } else if recording {
        PlayToggle::Ignore
    } else if queue_len > 0 {
        PlayToggle::PlayQueue
    } else {
        PlayToggle::PlayDefault
    }
}

/// The events that the play toggle falls back on: the default sequence's
/// where it loaded, else the last recorded ones.
pub fn fallback_events(default_events: Option<Vec<InputEvent>>, last_events: Option<
    Vec<InputEvent>,
>) -> (r: Option<Vec<InputEvent>>)
    ensures
        r == (if default_events is Some {
            default_events
        } else {
            last_events
        }),
{
    match default_events {
        Some(e) => Some(e),
        None => last_events,
    }
}

/// Whether the queue hotkey plays the queue: only when idle and the queue has
/// entries.
pub fn handle_play_queue_hotkey(playing: bool, recording: bool, queue_len: usize) -> (b: bool)
    ensures
        b == (!playing && !recording && queue_len > 0),
{
    !playing && !recording && queue_len > 0
}

/// The sequence bound to `vk`: the first binding of the key.
pub fn sequence_for_vk(bindings: &Vec<(u16, String)>, vk: u16) -> (r: Option<String>)
    ensures
        match r {
            Some(name) => exists|i: int|
                0 <= i < bindings@.len() && bindings@[i].0 == vk && bindings@[i].1 == name
                    && forall|k: int| 0 <= k < i ==> #[trigger] bindings@[k].0 != vk,
            None => forall|k: int| 0 <= k < bindings@.len() ==> #[trigger] bindings@[k].0 != vk,
        },
{
    let mut i: usize = 0;
    while i < bindings.len()
        invariant
            i <= bindings.len(),
            forall|k: int| 0 <= k < i ==> #[trigger] bindings@[k].0 != vk,
        decreases bindings.len() - i,
    {
        if bindings[i].0 == vk {
            return Some(bindings[i].1.clone());
        }
        i = i + 1;
    }
    None
}

/// The sequence that a sequence hotkey plays, unless something is playing or
/// recording.
pub fn handle_play_sequence(vk: u16, playing: bool, recording: bool, bindings: &Vec<(u16, String)>) -> (r: Option<String>)
    ensures
        (playing || recording) ==> r is None,
        !(playing || recording) ==> match r {
            Some(name) => exists|i: int|
                0 <= i < bindings@.len() && bindings@[i].0 == vk && bindings@[i].1 == name
                    && forall|k: int| 0 <= k < i ==> #[trigger] bindings@[k].0 != vk,
            None => forall|k: int| 0 <= k < bindings@.len() ==> #[trigger] bindings@[k].0 != vk,
        },
{
    if playing || recording {
        return None;
    }
    sequence_for_vk(bindings, vk)
}

/// The event lists of the queued sequences that loaded, in queue order.
pub open spec fn loaded_spec(loaded: Seq<Option<Vec<InputEvent>>>) -> Seq<Vec<InputEvent>>
    decreases loaded.len(),
{
    if loaded.len() == 0 {
        Seq::empty()
    } else {
        match loaded.last() {
            Some(v) => loaded_spec(loaded.drop_last()).push(v),
            None => loaded_spec(loaded.drop_last()),
        }
    }
}

/// Keep the sequences of the queue that loaded, in order.
pub fn loaded_events(loaded: Vec<Option<Vec<InputEvent>>>) -> (r: Vec<Vec<InputEvent>>)
    ensures
        r@ == loaded_spec(loaded@),
{
    let ghost all = loaded@;
    let mut r: Vec<Vec<InputEvent>> = Vec::new();
    for entry in it: loaded
        invariant
            it.seq() == all,
            r@ == loaded_spec(all.take(it.index() as int)),
    {
        let ghost i = it.index();
        assert(all.take(i + 1).drop_last() =~= all.take(i as int));
        assert(entry == all[i as int]);
        match entry {
            Some(v) => r.push(v),
            None => {},
        }
    }
    assert(all.take(all.len() as int) =~= all);
    r
}

/// The hotkey bindings of the loaded sequences, in order: key and name of each
/// sequence that has a hotkey.
pub open spec fn bindings_spec(sequences: Seq<Sequence>) -> Seq<(u16, Seq<char>)>
    decreases sequences.len(),
{
    if sequences.len() == 0 {
        Seq::empty()
    } else {
        match sequences.last().hotkey {
            Some(hk) => bindings_spec(sequences.drop_last()).push(
                (hk.vk_code, sequences.last().name@),
            ),
            None => bindings_spec(sequences.drop_last()),
        }
    }
}

/// The key and name of each binding, as text.
pub open spec fn bindings_view(b: Seq<(u16, String)>) -> Seq<(u16, Seq<char>)> {
    b.map_values(|p: (u16, String)| (p.0, p.1@))
}

/// The sequence hotkeys of the saved sequences that loaded.
pub fn load_all_bindings(sequences: &Vec<Sequence>) -> (r: Vec<(u16, String)>)
    ensures
        bindings_view(r@) == bindings_spec(sequences@),
{
    let mut r: Vec<(u16, String)> = Vec::new();
    let mut i: usize = 0;
    while i < sequences.len()
        invariant
            i <= sequences.len(),
            bindings_view(r@) == bindings_spec(sequences@.take(i as int)),
        decreases sequences.len() - i,
    {
        let ghost before = r@;
        assert(sequences@.take(i + 1).drop_last() =~= sequences@.take(i as int));
        assert(sequences@.take(i + 1).last() == sequences@[i as int]);
        match &sequences[i].hotkey {
            Some(hk) => {
                r.push((hk.vk_code, sequences[i].name.clone()));
                assert(bindings_view(r@) =~= bindings_view(before).push(
                    (hk.vk_code, sequences@[i as int].name@),
                ));
            },
            None => {},
        }
        i = i + 1;
    }
    assert(sequences@.take(i as int) =~= sequences@);
    r
}

/// Rebuild the table of sequence hotkeys from the saved sequences that
/// loaded, in place of what it held.
pub fn refresh_bindings(sequences: &Vec<Sequence>, table: &mut Vec<(u16, String)>)
    ensures
        bindings_view(final(table)@) == bindings_spec(sequences@),
{
    *table = load_all_bindings(sequences);
}

// ---- The queue ----

/// The queue with the entries at `i` and `j` exchanged.
pub open spec fn swapped(q: Seq<String>, i: int, j: int) -> Seq<String> {
    q.update(i, q[j]).update(j, q[i])
}

fn swap_entries(queue: &mut Vec<String>, i: usize, j: usize)
    requires
        i < old(queue)@.len(),
        j < old(queue)@.len(),
    ensures
        final(queue)@ == swapped(old(queue)@, i as int, j as int),
{
    let a = queue[i].clone();
    let b = queue[j].clone();
    queue.set(i, b);
    queue.set(j, a);
}

/// Move the selected queue entry up; gives the selection after the move. The
/// first entry stays where it is, with no selection; for a selection past the
/// end nothing moves, and the selection still goes up by one.
pub fn queue_move_up(queue: &mut Vec<String>, index: usize) -> (sel: Option<usize>)
    ensures
        index == 0 ==> sel is None && final(queue)@ == old(queue)@,
        0 < index < old(queue)@.len() ==> sel == Some((index - 1) as usize) && final(queue)@
            == swapped(old(queue)@, index as int, index - 1),
        index > 0 && index >= old(queue)@.len() ==> sel == Some((index - 1) as usize)
            && final(queue)@ == old(queue)@,
{
    if index == 0 {
        return None;
    }
    if index < queue.len() {
        swap_entries(queue, index, index - 1);
    }
    Some(index - 1)
}

/// Move the selected queue entry down; gives the new selection, nothing where
/// it is the last entry or past the end.
pub fn queue_move_down(queue: &mut Vec<String>, index: usize) -> (sel: Option<usize>)
    ensures
        index + 1 < old(queue)@.len() ==> sel == Some((index + 1) as usize) && final(queue)@
            == swapped(old(queue)@, index as int, index + 1),
        index + 1 >= old(queue)@.len() ==> sel is None && final(queue)@ == old(queue)@,
{
    if index < queue.len() && index + 1 < queue.len() {
        swap_entries(queue, index, index + 1);
        Some(index + 1)
    } else {
        None
    }
}

/// Moving an entry up and then down again leaves the queue as it was.
pub proof fn lemma_move_up_then_down(q: Seq<String>, index: int)
    requires
        0 < index < q.len(),
    ensures
        swapped(swapped(q, index, index - 1), index - 1, index) == q,
{
    assert(swapped(swapped(q, index, index - 1), index - 1, index) =~= q);
}

/// Reordering keeps the queue's entries, each as often as before.
pub proof fn lemma_move_keeps_entries(q: Seq<String>, i: int, j: int)
    requires
        0 <= i < q.len(),
        0 <= j < q.len(),
    ensures
        swapped(q, i, j).to_multiset() == q.to_multiset(),
        swapped(q, i, j).len() == q.len(),
{
    broadcast use vstd::seq_lib::group_to_multiset_ensures;
    broadcast use vstd::multiset::group_multiset_axioms;

    if i == j {
        assert(swapped(q, i, j) =~= q);
    } else {
        let s1 = q.update(i, q[j]);
        vstd::seq_lib::to_multiset_update(q, i, q[j]);
        vstd::seq_lib::to_multiset_update(s1, j, q[i]);
        assert(s1[j] == q[j]);
        assert(swapped(q, i, j).to_multiset() =~= q.to_multiset());
    }
}

/// The queue without the entries named `name`.
pub open spec fn without(q: Seq<String>, name: Seq<char>) -> Seq<String>
    decreases q.len(),
{
    if q.len() == 0 {
        Seq::empty()
    } else if q.last()@ == name {
        without(q.drop_last(), name)
    } else {
        without(q.drop_last(), name).push(q.last())
    }
}

/// Drop a deleted sequence from the queue, every time it occurs.
pub fn remove_from_queue(queue: &mut Vec<String>, name: &str)
    ensures
        final(queue)@ == without(old(queue)@, name@),
{
    let ghost q = queue@;
    let mut kept: Vec<String> = Vec::new();
    let mut i: usize = 0;
    while i < queue.len()
        invariant
            queue@ == q,
            i <= q.len(),
            kept@ == without(q.take(i as int), name@),
        decreases q.len() - i,
    {
        assert(q.take(i + 1).drop_last() =~= q.take(i as int));
        assert(q.take(i + 1).last() == q[i as int]);
        if !str_eq(queue[i].as_str(), name) {
            kept.push(queue[i].clone());
        }
        i = i + 1;
    }
    assert(q.take(i as int) =~= q);
    *queue = kept;
}

/// Point the queue's entries for a renamed sequence at its new name.
pub fn rename_in_queue(queue: &mut Vec<String>, old_name: &str, new_name: &String)
    ensures
        final(queue)@.len() == old(queue)@.len(),
        forall|i: int|
            0 <= i < old(queue)@.len() ==> #[trigger] final(queue)@[i] == (if old(queue)@[i]@
                == old_name@ {
                *new_name
            } else {
                old(queue)@[i]
            }),
{
    let ghost q = queue@;
    let mut i: usize = 0;
    while i < queue.len()
        invariant
            i <= queue@.len() == q.len(),
            forall|k: int|
                0 <= k < i ==> #[trigger] queue@[k] == (if q[k]@ == old_name@ {
                    *new_name
                } else {
                    q[k]
                }),
            forall|k: int| i <= k < q.len() ==> #[trigger] queue@[k] == q[k],
        decreases q.len() - i,
    {
        if str_eq(queue[i].as_str(), old_name) {
            queue.set(i, new_name.clone());
        }
        i = i + 1;
    }
}

// ---- The sequences list ----

/// The name of a sequence hotkey, `?` for a key that is not offered.
pub open spec fn key_name(vk: u16) -> Seq<char> {
    table_name(KEY_OPTION_VKS@, KEY_OPTION_NAMES@, vk)
}

/// The first binding that names the sequence, if any.
pub open spec fn first_binding_of(name: Seq<char>, bindings: Seq<(u16, Seq<char>)>) -> Option<int> {
    if exists|i: int| 0 <= i < bindings.len() && bindings[i].1 == name {
        Some(
            choose|i: int|
                0 <= i < bindings.len() && bindings[i].1 == name && forall|k: int|
                    0 <= k < i ==> bindings[k].1 != name,
        )
    } else {
        None
    }
}

/// How the sequences list shows a sequence: its name, followed by its hotkey
/// in brackets where one of the bindings names it.
pub open spec fn display_spec(name: Seq<char>, bindings: Seq<(u16, Seq<char>)>) -> Seq<char> {
    match first_binding_of(name, bindings) {
        Some(i) => name + " ["@ + key_name(bindings[i].0) + "]"@,
        None => name,
    }
}

/// The line of the sequences list for a sequence.
pub fn sequence_display(name: &str, bindings: &Vec<(u16, String)>) -> (s: String)
    ensures
        s@ == display_spec(name@, bindings_view(bindings@)),
{
    let ghost bv = bindings_view(bindings@);
    let mut i: usize = 0;
    while i < bindings.len()
        invariant
            i <= bindings.len(),
            bv == bindings_view(bindings@),
            forall|k: int| 0 <= k < i ==> bv[k].1 != name@,
        decreases bindings.len() - i,
    {
        assert(bv[i as int] == (bindings@[i as int].0, bindings@[i as int].1@));
        if str_eq(bindings[i].1.as_str(), name) {
            assert(bv[i as int].1 == name@);
            let ghost j = choose|j: int|
                0 <= j < bv.len() && bv[j].1 == name@ && forall|k: int| 0 <= k < j ==> bv[k].1 != name@;
            assert(j == i as int) by {
                if j < i {
                    assert(bv[j].1 != name@);
                } else if j > i {
                    assert(bv[i as int].1 == name@);
                }
            }
            let mut s = String::new();
            push_str(&mut s, name);
            push_str(&mut s, " [");
            push_str(&mut s, vk_name(bindings[i].0));
            push_str(&mut s, "]");
            return s;
        }
        i = i + 1;
    }
    let mut s = String::new();
    push_str(&mut s, name);
    s
}

/// A space followed by an opening bracket starts at `i`.
pub open spec fn bracket_at(s: Seq<char>, i: int) -> bool {
    0 <= i && i + 1 < s.len() && s[i] == ' ' && s[i + 1] == '['
}

/// Where the last ` [` of a line starts, if it has one.
pub open spec fn last_bracket(s: Seq<char>) -> Option<int> {
    if exists|i: int| bracket_at(s, i) {
        Some(choose|i: int| bracket_at(s, i) && forall|j: int| i < j ==> !bracket_at(s, j))
    } else {
        None
    }
}

/// The line ends, from its ` [` at `c`, in the hotkey suffix that the list
/// gives the name before it: ` [`, the name of the key of that name's first
/// binding, and `]`.
pub open spec fn key_suffix_at(line: Seq<char>, bindings: Seq<(u16, Seq<char>)>, c: int) -> bool {
    &&& line.len() >= c + 3
    &&& line.last() == ']'
    &&& first_binding_of(line.take(c), bindings) matches Some(i) && key_name(bindings[i].0)
        == line.subrange(c + 2, line.len() - 1)
}

/// The line reads as the list line of a sequence with a hotkey.
pub open spec fn reads_as_bound(line: Seq<char>, bindings: Seq<(u16, Seq<char>)>) -> bool {
    last_bracket(line) matches Some(c) && key_suffix_at(line, bindings, c)
}

/// The name shown by a line of the sequences list: the line without the
/// hotkey suffix that the list adds for a bound name, or the whole line where
/// it carries no such suffix.
pub open spec fn strip_spec(line: Seq<char>, bindings: Seq<(u16, Seq<char>)>) -> Seq<char> {
    if reads_as_bound(line, bindings) {
        line.take(last_bracket(line)->Some_0)
    } else {
        line
    }
}

/// The position of the last ` [` of a line.
fn last_bracket_index(cs: &Vec<char>) -> (r: Option<usize>)
    ensures
        match r {
            Some(p) => last_bracket(cs@) == Some(p as int),
            None => last_bracket(cs@) is None,
        },
{
    let n = cs.len();
    let mut i: usize = n;
    while i >= 2
        invariant
            i <= n == cs@.len(),
            forall|j: int| i - 1 <= j ==> !bracket_at(cs@, j),
        decreases i,
    {
        if cs[i - 2] == ' ' && cs[i - 1] == '[' {
            let p = i - 2;
            assert(bracket_at(cs@, p as int));
            let ghost c = choose|c: int|
                bracket_at(cs@, c) && forall|j: int| c < j ==> !bracket_at(cs@, j);
            assert(bracket_at(cs@, p as int) && forall|j: int| p < j ==> !bracket_at(cs@, j));
            assert(c == p as int) by {
                if c < p {
                    assert(!bracket_at(cs@, p as int));
                } else if c > p {
                    assert(c >= i - 1);
                }
            }
            return Some(p);
        }
        i = i - 1;
    }
    assert forall|j: int| !bracket_at(cs@, j) by {
        if bracket_at(cs@, j) {
            assert(j >= i - 1);
        }
    }
    None
}

/// The first binding of a sequence name.
fn first_binding_index(name: &Vec<char>, bindings: &Vec<(u16, String)>) -> (r: Option<usize>)
    ensures
        match r {
            Some(i) => first_binding_of(name@, bindings_view(bindings@)) == Some(i as int) && i
                < bindings@.len(),
            None => first_binding_of(name@, bindings_view(bindings@)) is None,
        },
{
    let ghost bv = bindings_view(bindings@);
    let mut i: usize = 0;
    while i < bindings.len()
        invariant
            i <= bindings.len(),
            bv == bindings_view(bindings@),
            forall|k: int| 0 <= k < i ==> bv[k].1 != name@,
        decreases bindings.len() - i,
    {
        assert(bv[i as int] == (bindings@[i as int].0, bindings@[i as int].1@));
        if chars_eq(&chars_of(bindings[i].1.as_str()), name) {
            assert(bv[i as int].1 == name@);
            assert(0 <= i < bv.len() && bv[i as int].1 == name@ && forall|k: int|
                0 <= k < i ==> bv[k].1 != name@);
            let ghost j = choose|j: int|
                0 <= j < bv.len() && bv[j].1 == name@ && forall|k: int| 0 <= k < j ==> bv[k].1 != name@;
            assert(j == i as int) by {
                if j < i {
                    assert(bv[j].1 != name@);
                } else if j > i {
                    assert(bv[i as int].1 == name@);
                }
            }
            return Some(i);
        }
        i = i + 1;
    }
    None
}

/// The characters of `v` from `lo` up to `hi`.
fn sub_chars(v: &Vec<char>, lo: usize, hi: usize) -> (r: Vec<char>)
    requires
        lo <= hi <= v@.len(),
    ensures
        r@ == v@.subrange(lo as int, hi as int),
{
    let mut r: Vec<char> = Vec::new();
    let mut k: usize = lo;
    while k < hi
        invariant
            lo <= k <= hi <= v@.len(),
            r@ == v@.subrange(lo as int, k as int),
        decreases hi - k,
    {
        r.push(v[k]);
        k = k + 1;
        assert(r@ =~= v@.subrange(lo as int, k as int));
    }
    r
}

/// Whether the line ends, from its last ` [` at `p`, in the hotkey suffix of
/// the name before it.
fn has_key_suffix(cs: &Vec<char>, p: usize, bindings: &Vec<(u16, String)>) -> (b: bool)
    requires
        last_bracket(cs@) == Some(p as int),
    ensures
        b == key_suffix_at(cs@, bindings_view(bindings@), p as int),
{
    let ghost bv = bindings_view(bindings@);
    let n = cs.len();
    if !(n >= 3 && p <= n - 3 && cs[n - 1] == ']') {
        return false;
    }
    let prefix = sub_chars(cs, 0, p);
    assert(prefix@ =~= cs@.take(p as int));
    let key = sub_chars(cs, p + 2, n - 1);
    match first_binding_index(&prefix, bindings) {
        Some(i) => {
            assert(bv[i as int] == (bindings@[i as int].0, bindings@[i as int].1@));
            let shown = chars_of(vk_name(bindings[i].0));
            chars_eq(&shown, &key)
        },
        None => false,
    }
}

/// The sequence name of a line of the sequences list, given the hotkey
/// bindings the list was drawn with.
pub fn strip_key_suffix(display: &str, bindings: &Vec<(u16, String)>) -> (name: String)
    ensures
        name@ == strip_spec(display@, bindings_view(bindings@)),
{
    let cs = chars_of(display);
    match last_bracket_index(&cs) {
        Some(p) => {
            if has_key_suffix(&cs, p, bindings) {
                let prefix = sub_chars(&cs, 0, p);
                assert(prefix@ =~= display@.take(p as int));
                return string_of(&prefix);
            }
            string_of(&cs)
        },
        None => string_of(&cs),
    }
}

proof fn lemma_last_bracket(name: Seq<char>, key: Seq<char>)
    requires
        no_bracket(key),
    ensures
        bracket_at(name + " ["@ + key + "]"@, name.len() as int),
        forall|j: int| name.len() < j ==> !bracket_at(name + " ["@ + key + "]"@, j),
{
    reveal_strlit(" [");
    reveal_strlit("]");
    let d = name + " ["@ + key + "]"@;
    let p = name.len() as int;
    assert(d.len() == p + 3 + key.len());
    assert(d[p] == ' ');
    assert(d[p + 1] == '[');
    assert forall|j: int| p < j implies !bracket_at(d, j) by {
        if bracket_at(d, j) {
            if j + 1 < p + 2 + key.len() {
                assert(d[j + 1] == key[j + 1 - p - 2]);
            } else {
                assert(d[j + 1] == ']');
            }
        }
    }
}

/// The line of a sequence with a hotkey gives its name back.
proof fn lemma_strip_bound(name: Seq<char>, bindings: Seq<(u16, Seq<char>)>, i: int)
    requires
        first_binding_of(name, bindings) == Some(i),
        no_bracket(key_name(bindings[i].0)),
    ensures
        strip_spec(name + " ["@ + key_name(bindings[i].0) + "]"@, bindings) == name,
{
    reveal_strlit(" [");
    reveal_strlit("]");
    let key = key_name(bindings[i].0);
    lemma_last_bracket(name, key);
    let d = name + " ["@ + key + "]"@;
    let p = name.len() as int;
    assert(bracket_at(d, p));
    let c = choose|c: int| bracket_at(d, c) && forall|j: int| c < j ==> !bracket_at(d, j);
    assert(bracket_at(d, p) && forall|j: int| p < j ==> !bracket_at(d, j));
    assert(c == p) by {
        if c < p {
            assert(!bracket_at(d, p));
        } else if c > p {
            assert(!bracket_at(d, c));
        }
    }
    assert(last_bracket(d) == Some(p));
    assert(d.take(p) =~= name);
    assert(d.subrange(p + 2, d.len() - 1) =~= key);
    assert(d.last() == ']');
    assert(key_suffix_at(d, bindings, p));
}

/// Stripping a line of the sequences list gives back the name it shows. This
/// holds for every name with a hotkey; a name without one comes back unless
/// it reads itself as the line of a bound name (such as `a [F1]` where `a` is
/// bound to F1), whose line is then the very same text.
pub proof fn lemma_strip_display(name: Seq<char>, bindings: Seq<(u16, Seq<char>)>)
    requires
        first_binding_of(name, bindings) is Some || !reads_as_bound(name, bindings),
    ensures
        strip_spec(display_spec(name, bindings), bindings) == name,
{
    match first_binding_of(name, bindings) {
        Some(i) => {
            lemma_key_names_have_no_bracket(bindings[i].0);
            lemma_strip_bound(name, bindings, i);
        },
        None => {},
    }
}

/// The text holds no opening bracket.
pub open spec fn no_bracket(s: Seq<char>) -> bool {
    forall|k: int| 0 <= k < s.len() ==> s[k] != '['
}

/// No name of a hotkey holds an opening bracket.
proof fn lemma_key_names_have_no_bracket(vk: u16)
    ensures
        no_bracket(key_name(vk)),
{
    reveal_strlit("?");
    reveal_strlit("F1");
    reveal_strlit("F2");
    reveal_strlit("F3");
    reveal_strlit("F4");
    reveal_strlit("F5");
    reveal_strlit("F6");
    reveal_strlit("F7");
    reveal_strlit("F8");
    reveal_strlit("F9");
    reveal_strlit("F10");
    reveal_strlit("F11");
    reveal_strlit("F12");
    reveal_strlit("Home");
    reveal_strlit("End");
    reveal_strlit("Insert");
    reveal_strlit("Pause");
    reveal_strlit("ScrollLock");
    assert forall|i: int| 0 <= i < 17 implies #[trigger] no_bracket(KEY_OPTION_NAMES@[i]@) by {
        if i == 0 {
            assert(KEY_OPTION_NAMES@[0]@ == "F1"@);
        } else if i == 1 {
            assert(KEY_OPTION_NAMES@[1]@ == "F2"@);
        } else if i == 2 {
            assert(KEY_OPTION_NAMES@[2]@ == "F3"@);
        } else if i == 3 {
            assert(KEY_OPTION_NAMES@[3]@ == "F4"@);
        } else if i == 4 {
            assert(KEY_OPTION_NAMES@[4]@ == "F5"@);
        } else if i == 5 {
            assert(KEY_OPTION_NAMES@[5]@ == "F6"@);
        } else if i == 6 {
            assert(KEY_OPTION_NAMES@[6]@ == "F7"@);
        } else if i == 7 {
            assert(KEY_OPTION_NAMES@[7]@ == "F8"@);
        } else if i == 8 {
            assert(KEY_OPTION_NAMES@[8]@ == "F9"@);
        } else if i == 9 {
            assert(KEY_OPTION_NAMES@[9]@ == "F10"@);
        } else if i == 10 {
            assert(KEY_OPTION_NAMES@[10]@ == "F11"@);
        } else if i == 11 {
            assert(KEY_OPTION_NAMES@[11]@ == "F12"@);
        } else if i == 12 {
            assert(KEY_OPTION_NAMES@[12]@ == "Home"@);
        } else if i == 13 {
            assert(KEY_OPTION_NAMES@[13]@ == "End"@);
        } else if i == 14 {
            assert(KEY_OPTION_NAMES@[14]@ == "Insert"@);
        } else if i == 15 {
            assert(KEY_OPTION_NAMES@[15]@ == "Pause"@);
        } else if i == 16 {
            assert(KEY_OPTION_NAMES@[16]@ == "ScrollLock"@);
        }
    }
}

// ---- Names entered in the dialogs ----

/// The name typed into a dialog, without the white space round it; none where
/// nothing but white space was typed (the save and rename dialogs then ask for
/// a name).
pub fn entered_name(text: &str) -> (r: Option<String>)
    ensures
        r is None <==> trim(text@).len() == 0,
        r matches Some(n) ==> n@ == trim(text@),
{
    let t = trim_chars(&chars_of(text));
    if t.len() == 0 {
        None
    } else {
        Some(string_of(&t))
    }
}

/// The question asked before a sequence is deleted.
pub fn delete_prompt(name: &str) -> (s: String)
    ensures
        s@ == "Delete \""@ + name@ + "\"?"@,
{
    let mut s = String::new();
    push_str(&mut s, "Delete \"");
    push_str(&mut s, name);
    push_str(&mut s, "\"?");
    s
}

/// The warning where a rename would take the name of another sequence.
pub fn rename_conflict_text(new_name: &str) -> (s: String)
    ensures
        s@ == "A sequence named \""@ + new_name@ + "\" already exists. Choose a different name."@,
{
    let mut s = String::new();
    push_str(&mut s, "A sequence named \"");
    push_str(&mut s, new_name);
    push_str(&mut s, "\" already exists. Choose a different name.");
    s
}

// ---- Names and lines of the queue ----

/// A line of the queue list: its position from 1, a dot, and the name.
pub fn queue_display(index: usize, name: &str) -> (s: String)
    requires
        index < usize::MAX,
    ensures
        s@ == decimal_digits((index + 1) as nat) + ". "@ + name@,
{
    let mut s = String::new();
    push_decimal(&mut s, (index + 1) as u64);
    push_str(&mut s, ". ");
    push_str(&mut s, name);
    s
}

/// The name that the save dialog proposes: `seq_` and one more than the
/// number of saved sequences.
pub fn generate_seq_name(saved_count: usize) -> (s: String)
    requires
        saved_count < usize::MAX,
    ensures
        s@ == "seq_"@ + decimal_digits((saved_count + 1) as nat),
{
    let mut s = String::new();
    push_str(&mut s, "seq_");
    push_decimal(&mut s, (saved_count + 1) as u64);
    s
}

// ---- Binding a sequence to a key ----

/// `vk` is bound to a sequence other than the one being edited (to any
/// sequence where none is being edited).
pub open spec fn bound_elsewhere(vk: u16, bindings: Seq<(u16, Seq<char>)>, editing: Option<
    Seq<char>,
>) -> bool {
    exists|i: int|
        0 <= i < bindings.len() && #[trigger] bindings[i].0 == vk && match editing {
            Some(e) => bindings[i].1 != e,
            None => true,
        }
}

/// The keys of `vks` that a sequence can be bound to: neither the record nor
/// the stop key, nor bound elsewhere.
pub open spec fn offered_keys(
    vks: Seq<u16>,
    record_vk: u16,
    stop_vk: u16,
    bindings: Seq<(u16, Seq<char>)>,
    editing: Option<Seq<char>>,
) -> Seq<u16>
    decreases vks.len(),
{
    if vks.len() == 0 {
        Seq::empty()
    } else {
        let rest = offered_keys(vks.drop_last(), record_vk, stop_vk, bindings, editing);
        let vk = vks.last();
        if vk != record_vk && vk != stop_vk && !bound_elsewhere(vk, bindings, editing) {
            rest.push(vk)
        } else {
            rest
        }
    }
}

pub open spec fn editing_view(editing: Option<&str>) -> Option<Seq<char>> {
    match editing {
        Some(e) => Some(e@),
        None => None,
    }
}

/// The keys offered when binding a sequence, in table order.
pub fn available_keys_for_binding(
    record_vk: u16,
    stop_vk: u16,
    bindings: &Vec<(u16, String)>,
    editing: Option<&str>,
) -> (keys: Vec<u16>)
    ensures
        keys@ == offered_keys(
            KEY_OPTION_VKS@,
            record_vk,
            stop_vk,
            bindings_view(bindings@),
            editing_view(editing),
        ),
{
    let ghost bv = bindings_view(bindings@);
    let ghost ev = editing_view(editing);
    let mut keys: Vec<u16> = Vec::new();
    let mut i: usize = 0;
    while i < 17
        invariant
            i <= 17,
            bv == bindings_view(bindings@),
            ev == editing_view(editing),
            keys@ == offered_keys(KEY_OPTION_VKS@.take(i as int), record_vk, stop_vk, bv, ev),
        decreases 17 - i,
    {
        let vk = KEY_OPTION_VKS[i];
        let mut elsewhere = false;
        let mut j: usize = 0;
        while j < bindings.len()
            invariant
                j <= bindings.len(),
                bv == bindings_view(bindings@),
                ev == editing_view(editing),
                elsewhere == exists|k: int|
                    0 <= k < j && #[trigger] bv[k].0 == vk && match ev {
                        Some(e) => bv[k].1 != e,
                        None => true,
                    },
            decreases bindings.len() - j,
        {
            assert(bv[j as int] == (bindings@[j as int].0, bindings@[j as int].1@));
            let mut hit = false;
            if bindings[j].0 == vk {
                hit = match editing {
                    Some(e) => !str_eq(bindings[j].1.as_str(), e),
                    None => true,
                };
            }
            assert(hit == (bv[j as int].0 == vk && match ev {
                Some(e) => bv[j as int].1 != e,
                None => true,
            }));
            if hit {
                elsewhere = true;
            }
            j = j + 1;
        }
        assert(KEY_OPTION_VKS@.take(i + 1).drop_last() =~= KEY_OPTION_VKS@.take(i as int));
        assert(KEY_OPTION_VKS@.take(i + 1).last() == vk);
        assert(elsewhere == bound_elsewhere(vk, bv, ev));
        if vk != record_vk && vk != stop_vk && !elsewhere {
            keys.push(vk);
        }
        i = i + 1;
    }
    assert(KEY_OPTION_VKS@.take(17) =~= KEY_OPTION_VKS@);
    keys
}

/// Apply the choice of the bind-key list, whose first entry is "(None)" and
/// whose others are the `available` keys: clear the hotkey, bind the chosen
/// key, or change nothing for a choice past the end.
pub fn apply_key_choice(seq: &mut Sequence, choice: usize, available: &Vec<u16>)
    ensures
        choice == 0 ==> final(seq).hotkey is None,
        0 < choice <= available@.len() ==> final(seq).hotkey == Some(
            HotkeyBinding { modifiers: 0, vk_code: available@[choice - 1] },
        ),
        choice > available@.len() ==> final(seq).hotkey == old(seq).hotkey,
        final(seq).name == old(seq).name,
        final(seq).events == old(seq).events,
        final(seq).created_at == old(seq).created_at,
        final(seq).total_duration_micros == old(seq).total_duration_micros,
{
    if choice == 0 {
        seq.clear_hotkey();
    } else if choice - 1 < available.len() {
        seq.set_hotkey(available[choice - 1]);
    }
}

// ---- Settings ----

/// The hotkeys chosen in the settings dialog.
#[derive(Clone, Copy, Debug, PartialEq, Eq, Structural)]
pub struct HotkeyChoice {
    pub record_vk: u16,
    pub stop_vk: u16,
    pub queue_vk: Option<u16>,
}

/// Why the settings dialog refuses its hotkeys.
#[derive(Clone, Copy, Debug, PartialEq, Eq, Structural)]
pub enum SettingsError {
    /// A list has no selection; the dialog then does nothing.
    NoSelection,
    SameRecordAndStop,
    QueueConflict,
}

/// The queue key chosen in a list whose first entry is "(None)".
pub open spec fn queue_choice_spec(queue_idx: usize) -> Option<u16> {
    if queue_idx == 0 || queue_idx - 1 >= 17 {
        None
    } else {
        Some(KEY_OPTION_VKS@[queue_idx - 1])
    }
}

/// Check the hotkeys chosen by list position: both the record and stop key
/// must be chosen and differ, and a queue key must differ from both.
pub fn settings_choice(record_idx: usize, stop_idx: usize, queue_idx: usize) -> (r: Result<
    HotkeyChoice,
    SettingsError,
>)
    ensures
        (record_idx >= 17 || stop_idx >= 17) ==> r == Err::<HotkeyChoice, SettingsError>(
            SettingsError::NoSelection,
        ),
        record_idx < 17 && stop_idx < 17 ==> {
            let rec = KEY_OPTION_VKS@[record_idx as int];
            let stop = KEY_OPTION_VKS@[stop_idx as int];
            let queue = queue_choice_spec(queue_idx);
            if rec == stop {
                r == Err::<HotkeyChoice, SettingsError>(SettingsError::SameRecordAndStop)
            } else if queue matches Some(q) && (q == rec || q == stop) {
                r == Err::<HotkeyChoice, SettingsError>(SettingsError::QueueConflict)
            } else {
                r == Ok::<HotkeyChoice, SettingsError>(
                    HotkeyChoice { record_vk: rec, stop_vk: stop, queue_vk: queue },
                )
            }
        },
{
    if record_idx >= 17 || stop_idx >= 17 {
        return Err(SettingsError::NoSelection);
    }
    let rec = KEY_OPTION_VKS[record_idx];
    let stop = KEY_OPTION_VKS[stop_idx];
    let queue: Option<u16> = if queue_idx == 0 {
        None
    } else if queue_idx - 1 < 17 {
        Some(KEY_OPTION_VKS[queue_idx - 1])
    } else {
        None
    };
    if rec == stop {
        return Err(SettingsError::SameRecordAndStop);
    }
    if let Some(q) = queue {
        if q == rec || q == stop {
            return Err(SettingsError::QueueConflict);
        }
    }
    Ok(HotkeyChoice { record_vk: rec, stop_vk: stop, queue_vk: queue })
}

/// The message for a refused choice; none where the dialog stays silent.
pub fn settings_error_text(e: SettingsError) -> (t: Option<&'static str>)
    ensures
        e == SettingsError::NoSelection ==> t is None,
        e == SettingsError::SameRecordAndStop ==> (t matches Some(m) && m@
            == "Record and Stop keys must be different!"@),
        e == SettingsError::QueueConflict ==> (t matches Some(m) && m@
            == "Queue key must be different from Record and Stop keys!"@),
{
    match e {
        SettingsError::NoSelection => None,
        SettingsError::SameRecordAndStop => Some("Record and Stop keys must be different!"),
        SettingsError::QueueConflict => Some(
            "Queue key must be different from Record and Stop keys!",
        ),
    }
}

/// What the settings dialog does on OK.
#[derive(Clone, Copy, Debug)]
pub enum SettingsAction {
    /// Save these hotkeys and close the dialog.
    SaveAndClose(HotkeyChoice),
    /// Keep the dialog open, nothing changed, and show this message.
    ShowError(&'static str),
    /// Keep the dialog open, nothing changed, without a word.
    Stay,
}

/// The message where the chosen hotkeys could not be registered.
pub open spec fn register_failed_text() -> Seq<char> {
    "Failed to register hotkeys.\nKey may be in use."@
}

/// The settings dialog's OK: the checked choice (see `settings_choice`) and,
/// for a valid one, whether its record and stop keys could be registered as
/// hotkeys. The keys are saved and the dialog closed only for a valid choice
/// that registered; otherwise nothing changes and the dialog stays open.
pub fn settings_action(choice: Result<HotkeyChoice, SettingsError>, registered: bool) -> (a:
    SettingsAction)
    ensures
        match choice {
            Ok(keys) => if registered {
                a == SettingsAction::SaveAndClose(keys)
            } else {
                a matches SettingsAction::ShowError(m) && m@ == register_failed_text()
            },
            Err(SettingsError::NoSelection) => a == SettingsAction::Stay,
            Err(SettingsError::SameRecordAndStop) => a matches SettingsAction::ShowError(m) && m@
                == "Record and Stop keys must be different!"@,
            Err(SettingsError::QueueConflict) => a matches SettingsAction::ShowError(m) && m@
                == "Queue key must be different from Record and Stop keys!"@,
        },
{
    match choice {
        Ok(keys) => {
            if registered {
                SettingsAction::SaveAndClose(keys)
            } else {
                SettingsAction::ShowError("Failed to register hotkeys.\nKey may be in use.")
            }
        },
        Err(e) => match settings_error_text(e) {
            Some(m) => SettingsAction::ShowError(m),
            None => SettingsAction::Stay,
        },
    }
}

/// Save chosen hotkeys into the settings, leaving everything else as it was.
pub fn apply_hotkey_choice(cfg: &mut AppConfig, keys: HotkeyChoice)
    ensures
        *final(cfg) == (AppConfig {
            record_vk: keys.record_vk,
            stop_vk: keys.stop_vk,
            queue_vk: keys.queue_vk,
            ..*old(cfg)
        }),
{
    cfg.record_vk = keys.record_vk;
    cfg.stop_vk = keys.stop_vk;
    cfg.queue_vk = keys.queue_vk;
}

/// The position of a key in the hotkey list, where it is offered.
pub fn combo_index(vk: u16) -> (r: Option<usize>)
    ensures
        match r {
            Some(i) => i < 17 && KEY_OPTION_VKS@[i as int] == vk && forall|k: int|
                0 <= k < i ==> KEY_OPTION_VKS@[k] != vk,
            None => forall|k: int| 0 <= k < 17 ==> KEY_OPTION_VKS@[k] != vk,
        },
{
    let mut i: usize = 0;
    while i < 17
        invariant
            i <= 17,
            forall|k: int| 0 <= k < i ==> KEY_OPTION_VKS@[k] != vk,
        decreases 17 - i,
    {
        if KEY_OPTION_VKS[i] == vk {
            return Some(i);
        }
        i = i + 1;
    }
    None
}

// ---- Remote hotkeys ----

/// The modifier flags of a remote hotkey.
pub const MOD_FLAG_ALT: u32 = 0x1;
pub const MOD_FLAG_CTRL: u32 = 0x2;
pub const MOD_FLAG_SHIFT: u32 = 0x4;

/// Why the add-binding dialog refuses its input.
#[derive(Clone, Copy, Debug, PartialEq, Eq, Structural)]
pub enum BindingError {
    NoModifier,
    NoKey,
    NoSequenceName,
}

/// The binding made by the add-binding dialog, from its three modifier boxes,
/// the position chosen in the key list and the sequence name: at least one
/// modifier, a chosen key and a name are needed, checked in that order.
pub fn new_remote_binding(
    alt: bool,
    ctrl: bool,
    shift: bool,
    key_index: usize,
    sequence_name: String,
) -> (r: Result<RemoteBinding, BindingError>)
    ensures
        !alt && !ctrl && !shift ==> (r matches Err(e) && e == BindingError::NoModifier),
        (alt || ctrl || shift) && key_index >= 48 ==> (r matches Err(e) && e == BindingError::NoKey),
        (alt || ctrl || shift) && key_index < 48 && sequence_name@.len() == 0 ==> (r matches Err(e)
            && e == BindingError::NoSequenceName),
        (alt || ctrl || shift) && key_index < 48 && sequence_name@.len() > 0 ==> (r matches Ok(b)
            && b.modifiers == (if alt { 1u32 } else { 0u32 }) + (if ctrl { 2u32 } else { 0u32 })
            + (if shift { 4u32 } else { 0u32 })
            && b.vk_code == REMOTE_KEY_OPTION_VKS@[key_index as int]
            && b.sequence_name == sequence_name),
{
    let mut modifiers: u32 = 0;
    if alt {
        modifiers = modifiers + MOD_FLAG_ALT;
    }
    if ctrl {
        modifiers = modifiers + MOD_FLAG_CTRL;
    }
    if shift {
        modifiers = modifiers + MOD_FLAG_SHIFT;
    }
    if modifiers == 0 {
        return Err(BindingError::NoModifier);
    }
    if key_index >= 48 {
        return Err(BindingError::NoKey);
    }
    if sequence_name.as_str().is_empty() {
        return Err(BindingError::NoSequenceName);
    }
    Ok(RemoteBinding { modifiers, vk_code: REMOTE_KEY_OPTION_VKS[key_index], sequence_name })
}

/// The message for refused add-binding input.
pub fn binding_error_text(e: BindingError) -> (t: &'static str)
    ensures
        e == BindingError::NoModifier ==> t@ == "Select at least one modifier (Alt, Ctrl, or Shift)"@,
        e == BindingError::NoKey ==> t@ == "Select a key"@,
        e == BindingError::NoSequenceName ==> t@ == "Enter a sequence name"@,
{
    match e {
        BindingError::NoModifier => "Select at least one modifier (Alt, Ctrl, or Shift)",
        BindingError::NoKey => "Select a key",
        BindingError::NoSequenceName => "Enter a sequence name",
    }
}

/// The modifiers of a remote hotkey as text: `Ctrl+`, `Alt+`, `Shift+` for the
/// flags that are set, in that order.
pub open spec fn modifier_prefix(modifiers: u32) -> Seq<char> {
    (if (modifiers as int / 2) % 2 == 1 { "Ctrl+"@ } else { Seq::empty() }) + (if modifiers as int
        % 2 == 1 {
        "Alt+"@
    } else {
        Seq::empty()
    }) + (if (modifiers as int / 4) % 2 == 1 { "Shift+"@ } else { Seq::empty() })
}

/// The line of the remote hotkey list for a binding: its keys joined by `+`,
/// an arrow and the sequence name.
pub fn format_binding(modifiers: u32, vk: u16, seq_name: &str) -> (s: String)
    ensures
        s@ == modifier_prefix(modifiers) + table_name(
            REMOTE_KEY_OPTION_VKS@,
            REMOTE_KEY_OPTION_NAMES@,
            vk,
        ) + " \u{2192} "@ + seq_name@,
{
    assert(modifiers & 2u32 != 0 <==> (modifiers / 2) % 2 == 1) by (bit_vector);
    assert(modifiers & 1u32 != 0 <==> modifiers % 2 == 1) by (bit_vector);
    assert(modifiers & 4u32 != 0 <==> (modifiers / 4) % 2 == 1) by (bit_vector);
    let mut s = String::new();
    if modifiers & MOD_FLAG_CTRL != 0 {
        push_str(&mut s, "Ctrl+");
    }
    if modifiers & MOD_FLAG_ALT != 0 {
        push_str(&mut s, "Alt+");
    }
    if modifiers & MOD_FLAG_SHIFT != 0 {
        push_str(&mut s, "Shift+");
    }
    assert(s@ =~= modifier_prefix(modifiers));
    push_str(&mut s, remote_vk_name(vk));
    push_str(&mut s, " \u{2192} ");
    push_str(&mut s, seq_name);
    s
}

// ---- Status lines ----

/// The toolbar's status text.
pub fn status_text(recording: bool, playing: bool, loop_mode: bool, listening: bool) -> (t:
    &'static str)
    ensures
        t@ == (if recording {
            "Recording..."@
        } else if playing {
            if loop_mode {
                "Playing (loop)"@
            } else {
                "Playing..."@
            }
        } else if listening {
            "Idle (Recv)"@
        } else {
            "Idle"@
        }),
{
    if recording {
        "Recording..."
    } else if playing {
        if loop_mode {
            "Playing (loop)"
        } else {
            "Playing..."
        }
    } else if listening {
        "Idle (Recv)"
    } else {
        "Idle"
    }
}

/// The record button's label.
pub fn record_button_text(recording: bool) -> (t: &'static str)
    ensures
        t@ == (if recording { "Stop"@ } else { "Record"@ }),
{
    if recording {
        "Stop"
    } else {
        "Record"
    }
}

/// The play button's label.
pub fn play_button_text(playing: bool) -> (t: &'static str)
    ensures
        t@ == (if playing { "Stop"@ } else { "Play"@ }),
{
    if playing {
        "Stop"
    } else {
        "Play"
    }
}

/// The receiver's status line in the remote dialog.
pub fn receiver_status(listening: bool, error: Option<String>) -> (s: String)
    ensures
        s@ == (if listening {
            "Listening"@
        } else {
            match error {
                Some(e) => "Error: "@ + e@,
                None => "Idle"@,
            }
        }),
{
    let mut s = String::new();
    if listening {
        push_str(&mut s, "Listening");
    } else {
        match error {
            Some(e) => {
                push_str(&mut s, "Error: ");
                push_str(&mut s, e.as_str());
            },
            None => push_str(&mut s, "Idle"),
        }
    }
    s
}

/// The receiver's toggle button label.
pub fn receiver_button_text(listening: bool) -> (t: &'static str)
    ensures
        t@ == (if listening { "Stop Listening"@ } else { "Start Listening"@ }),
{
    if listening {
        "Stop Listening"
    } else {
        "Start Listening"
    }
}

/// The receiver's status after starting it, or failing to.
pub fn listener_started_status(port: u16, result: &Result<(), String>) -> (s: String)
    ensures
        s@ == match result {
            Ok(()) => "Listening on port "@ + decimal_digits(port as nat),
            Err(e) => "Error: "@ + e@,
        },
{
    let mut s = String::new();
    match result {
        Ok(()) => {
            push_str(&mut s, "Listening on port ");
            push_decimal(&mut s, port as u64);
        },
        Err(e) => {
            push_str(&mut s, "Error: ");
            push_str(&mut s, e.as_str());
        },
    }
    s
}

/// The command of "Send Play", or the prompt where no code was entered.
pub fn send_play_request(code: &str) -> (r: Result<String, &'static str>)
    ensures
        code@.len() == 0 ==> (r matches Err(m) && m@ == "Enter a code (sequence name)"@),
        code@.len() > 0 ==> (r matches Ok(c) && c@ == "PLAY "@ + code@),
{
    if code.is_empty() {
        Err("Enter a code (sequence name)")
    } else {
        Ok(crate::network::play_command(code))
    }
}

/// The sender's status when a command goes out to `hosts` receivers, or the
/// prompt where there are none.
pub fn send_request_status(hosts: usize) -> (r: Result<String, &'static str>)
    ensures
        hosts == 0 ==> (r matches Err(m) && m@ == "Add at least one host"@),
        hosts > 0 ==> (r matches Ok(s) && s@ == "Sending to "@ + decimal_digits(hosts as nat)
            + " host(s)..."@),
{
    if hosts == 0 {
        return Err("Add at least one host");
    }
    let mut s = String::new();
    push_str(&mut s, "Sending to ");
    push_decimal(&mut s, hosts as u64);
    push_str(&mut s, " host(s)...");
    Ok(s)
}

/// The sender's status once a receiver answered, or the send failed.
pub fn send_result_text(host: &str, result: &Result<String, String>) -> (s: String)
    ensures
        s@ == match result {
            Ok(resp) => host@ + ": OK ("@ + resp@ + ")"@,
            Err(e) => host@ + ": Error ("@ + e@ + ")"@,
        },
{
    let mut s = String::new();
    push_str(&mut s, host);
    match result {
        Ok(resp) => {
            push_str(&mut s, ": OK (");
            push_str(&mut s, resp.as_str());
        },
        Err(e) => {
            push_str(&mut s, ": Error (");
            push_str(&mut s, e.as_str());
        },
    }
    push_str(&mut s, ")");
    s
}

/// A sampled color as the settings dialog shows it.
pub fn color_text(color: u32) -> (s: String)
    ensures
        s@ == "R:"@ + decimal_digits(red(color) as nat) + " G:"@ + decimal_digits(green(color) as nat)
            + " B:"@ + decimal_digits(blue(color) as nat),
{
    let r = color & 0xFF;
    let g = (color >> 8) & 0xFF;
    let b = (color >> 16) & 0xFF;
    assert(color & 0xFF == color % 256) by (bit_vector);
    assert((color >> 8u32) & 0xFF == (color / 256) % 256) by (bit_vector);
    assert((color >> 16u32) & 0xFF == (color / 65536) % 256) by (bit_vector);
    let mut s = String::new();
    push_str(&mut s, "R:");
    push_decimal(&mut s, r as u64);
    push_str(&mut s, " G:");
    push_decimal(&mut s, g as u64);
    push_str(&mut s, " B:");
    push_decimal(&mut s, b as u64);
    s
}

// ---- Picking the HP pixel ----

/// The character for the low byte of a UTF-16 unit, as the settings dialog
/// reads its coordinate boxes.
pub open spec fn latin1(u: u16) -> char {
    (u as int % 256) as char
}

/// Where the text of a NUL-terminated buffer ends.
pub open spec fn text_end(units: Seq<u16>) -> int {
    if exists|i: int| 0 <= i < units.len() && units[i] == 0 {
        choose|i: int| 0 <= i < units.len() && units[i] == 0 && forall|k: int| 0 <= k < i ==> units[k] != 0
    } else {
        units.len() as int
    }
}

/// The text of a coordinate box as the dialog reads it: the units before the
/// first NUL, each cut to its low byte.
pub open spec fn edit_text_spec(units: Seq<u16>) -> Seq<char> {
    units.take(text_end(units)).map_values(|u: u16| latin1(u))
}

/// A coordinate typed into the settings dialog: its text parsed as an `i32`.
pub fn parse_coordinate(units: &Vec<u16>) -> (r: Option<i32>)
    ensures
        match parse_i32_spec(edit_text_spec(units@)) {
            Some(v) => r == Some(v as i32),
            None => r is None,
        },
{
    let mut text = String::new();
    let mut i: usize = 0;
    while i < units.len() && units[i] != 0
        invariant
            i <= units.len(),
            forall|k: int| 0 <= k < i ==> units@[k] != 0,
            text@ == units@.take(i as int).map_values(|u: u16| latin1(u)),
        decreases units.len() - i,
    {
        let c = latin1_char(units[i]);
        assert(c == latin1(units@[i as int]));
        text.push(c);
        i = i + 1;
        assert(text@ =~= units@.take(i as int).map_values(|u: u16| latin1(u)));
    }
    proof {
        if i < units.len() {
            let j = choose|j: int|
                0 <= j < units@.len() && units@[j] == 0 && forall|k: int| 0 <= k < j ==> units@[k] != 0;
            assert(units@[i as int] == 0);
            assert(j == i as int) by {
                if j < i {
                    assert(units@[j] != 0);
                } else if j > i {
                    assert(units@[i as int] == 0);
                }
            }
        } else {
            assert(!(exists|k: int| 0 <= k < units@.len() && units@[k] == 0));
        }
        assert(text@ == edit_text_spec(units@));
    }
    parse_i32(text.as_str())
}

/// The live line while picking: the cursor position and the color under it.
pub fn pick_live_text(x: i32, y: i32, color: u32) -> (s: String)
    ensures
        s@ == "X:"@ + signed_digits(x as int) + " Y:"@ + signed_digits(y as int) + " | "@ + (if color
            == CLR_INVALID {
            "(unreadable)"@
        } else {
            "R:"@ + decimal_digits(red(color) as nat) + " G:"@ + decimal_digits(green(color) as nat)
                + " B:"@ + decimal_digits(blue(color) as nat)
        }),
{
    let mut s = String::new();
    push_str(&mut s, "X:");
    push_signed_decimal(&mut s, x);
    push_str(&mut s, " Y:");
    push_signed_decimal(&mut s, y);
    push_str(&mut s, " | ");
    if color == CLR_INVALID {
        push_str(&mut s, "(unreadable)");
    } else {
        let c = color_text(color);
        push_str(&mut s, c.as_str());
    }
    s
}

/// The line under the sample button: the sampled color, or a note that the
/// pixel could not be read.
pub fn sample_text(color: u32) -> (s: String)
    ensures
        color == CLR_INVALID ==> s@ == "(invalid pixel)"@,
        color != CLR_INVALID ==> s@ == "R:"@ + decimal_digits(red(color) as nat) + " G:"@
            + decimal_digits(green(color) as nat) + " B:"@ + decimal_digits(blue(color) as nat),
{
    if color == CLR_INVALID {
        let mut s = String::new();
        push_str(&mut s, "(invalid pixel)");
        s
    } else {
        color_text(color)
    }
}

/// The settings dialog's line for the reference color: the color, or a note
/// that none was sampled yet.
pub fn reference_color_text(color: u32) -> (s: String)
    ensures
        color == 0 ==> s@ == "(not sampled)"@,
        color != 0 ==> s@ == "R:"@ + decimal_digits(red(color) as nat) + " G:"@ + decimal_digits(
            green(color) as nat,
        ) + " B:"@ + decimal_digits(blue(color) as nat),
{
    if color == 0 {
        let mut s = String::new();
        push_str(&mut s, "(not sampled)");
        s
    } else {
        color_text(color)
    }
}

} // verus!
