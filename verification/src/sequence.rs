//! Recorded input: events, sequences and their hotkey bindings.

use vstd::prelude::*;
use crate::text::{push_decimal, decimal_digits};
use std::time::{Duration, SystemTime};

verus! {

/// A mouse button as recorded by the low-level mouse hook.
#[derive(Clone, Copy, Debug, PartialEq, Eq, Structural)]
pub enum MouseButton {
    Left,
    Right,
    Middle,
    X1,
    X2,
}

/// What happened at one recorded instant.
#[derive(Clone, Copy, Debug, PartialEq, Eq, Structural)]
pub enum InputEventType {
    MouseMove { x: i32, y: i32 },
    MouseButton { button: MouseButton, pressed: bool },
    MouseWheel { delta: i32 },
    KeyPress { vk_code: u16, scan_code: u16, pressed: bool, extended: bool },
}

/// One recorded input together with the time since the previous one.
#[derive(Clone, Copy, Debug, PartialEq, Eq, Structural)]
pub struct InputEvent {
    /// Microseconds since the previous event
    pub delay_micros: i64,
    pub event_type: InputEventType,
}

/// A global hotkey that plays a sequence.
#[derive(Clone, Copy, Debug, PartialEq, Eq, Structural)]
pub struct HotkeyBinding {
    pub modifiers: u32,
    pub vk_code: u16,
}

/// A hotkey that sends a `PLAY` command for a sequence to the remote hosts.
#[derive(Clone, Debug)]
pub struct RemoteBinding {
    pub modifiers: u32,
    pub vk_code: u16,
    pub sequence_name: String,
}

/// A named, recorded list of input events.
#[derive(Clone, Debug)]
pub struct Sequence {
    pub name: String,
    pub hotkey: Option<HotkeyBinding>,
    pub events: Vec<InputEvent>,
    pub created_at: String,
    pub total_duration_micros: i64,
}

/// The sum of the delays of `events`, taken front to back.
pub open spec fn total_delay(events: Seq<InputEvent>) -> int
    decreases events.len(),
{
    if events.len() == 0 {
        0
    } else {
        total_delay(events.drop_last()) + events.last().delay_micros
    }
}

/// Every running sum of the delays, front to back, fits in an `i64`.
pub open spec fn delays_fit(events: Seq<InputEvent>) -> bool {
    forall|k: int|
        0 <= k <= events.len() ==> i64::MIN <= #[trigger] total_delay(events.take(k)) <= i64::MAX
}

/// The sum of the delays of `events`, or `None` where a running sum leaves the
/// range of `i64`.
pub fn sum_delays(events: &Vec<InputEvent>) -> (r: Option<i64>)
    ensures
        r is Some <==> delays_fit(events@),
        r matches Some(t) ==> t == total_delay(events@),
{
    let mut total: i64 = 0;
    let mut i: usize = 0;
    assert(events@.take(0) =~= Seq::<InputEvent>::empty());
    while i < events.len()
        invariant
            i <= events.len(),
            total == total_delay(events@.take(i as int)),
            forall|k: int| 0 <= k <= i ==> i64::MIN <= #[trigger] total_delay(events@.take(k)) <= i64::MAX,
        decreases events.len() - i,
    {
        assert(events@.take(i + 1).drop_last() =~= events@.take(i as int));
        match total.checked_add(events[i].delay_micros) {
            Some(t) => {
                total = t;
            },
            None => {
                assert(!(i64::MIN <= total_delay(events@.take(i + 1)) <= i64::MAX));
                return None;
            },
        }
        i = i + 1;
    }
    assert(events@.take(events.len() as int) =~= events@);
    Some(total)
}

/// The one outside-time reading behind a sequence's creation stamp.
#[verifier::external_type_specification]
#[verifier::external_body]
pub struct ExSystemTime(SystemTime);

/// `SystemTime::now` reads the system clock; nothing is stated of the reading.
pub assume_specification[ SystemTime::now ]() -> SystemTime;

/// `Duration::as_secs` gives the whole seconds of a duration; a duration is
/// opaque here, so nothing is stated of the count.
pub assume_specification[ Duration::as_secs ](d: &Duration) -> u64;

/// Calls `SystemTime::duration_since` with the Unix epoch. The outcome depends on
/// the clock, so nothing is stated of it; its error becomes `None`.
#[verifier::external_body]
fn since_unix_epoch(t: &SystemTime) -> Option<Duration> {
    t.duration_since(SystemTime::UNIX_EPOCH).ok()
}

/// The creation stamp for a clock reading: the whole seconds since the Unix
/// epoch in decimal, or `"0"` for a clock set before 1970 (`None`).
pub open spec fn stamp_spec(since_epoch: Option<u64>) -> Seq<char> {
    match since_epoch {
        Some(secs) => decimal_digits(secs as nat),
        None => decimal_digits(0),
    }
}

/// The creation stamp for a clock reading.
pub fn unix_stamp(since_epoch: Option<u64>) -> (s: String)
    ensures
        s@ == stamp_spec(since_epoch),
{
    let secs: u64 = match since_epoch {
        Some(secs) => secs,
        None => 0,
    };
    let mut s = String::new();
    push_decimal(&mut s, secs);
    s
}

/// The system clock's whole seconds since the Unix epoch; `None` for a clock
/// set before it. The reading depends on the time, so nothing is said of it.
fn clock_seconds() -> Option<u64> {
    let now = SystemTime::now();
    match since_unix_epoch(&now) {
        Some(d) => Some(d.as_secs()),
        None => None,
    }
}

/// The current Unix time as a creation stamp: the stamp of the clock's
/// reading, whatever that reading is.
pub fn chrono_now() -> (s: String)
    ensures
        exists|reading: Option<u64>| s@ == stamp_spec(reading),
{
    let reading = clock_seconds();
    unix_stamp(reading)
}

impl Sequence {
    /// A fresh sequence: no hotkey, created now, with the sum of its delays as
    /// its duration.
    pub fn new(name: String, events: Vec<InputEvent>) -> (s: Self)
        requires
            delays_fit(events@),
        ensures
            s.name == name,
            s.hotkey is None,
            s.events@ == events@,
            s.total_duration_micros == total_delay(events@),
            exists|reading: Option<u64>| s.created_at@ == stamp_spec(reading),
    {
        let total_duration_micros = match sum_delays(&events) {
            Some(t) => t,
            None => 0,
        };
        let created_at = chrono_now();
        Sequence { name, hotkey: None, events, created_at, total_duration_micros }
    }

    /// Bind the sequence to `vk_code`, without modifiers.
    pub fn set_hotkey(&mut self, vk_code: u16)
        ensures
            final(self).hotkey == Some(HotkeyBinding { modifiers: 0, vk_code }),
            final(self).name == old(self).name,
            final(self).events == old(self).events,
            final(self).created_at == old(self).created_at,
            final(self).total_duration_micros == old(self).total_duration_micros,
    {
        self.hotkey = Some(HotkeyBinding { modifiers: 0, vk_code });
    }

    /// Remove the sequence's hotkey.
    pub fn clear_hotkey(&mut self)
        ensures
            final(self).hotkey is None,
            final(self).name == old(self).name,
            final(self).events == old(self).events,
            final(self).created_at == old(self).created_at,
            final(self).total_duration_micros == old(self).total_duration_micros,
    {
        self.hotkey = None;
    }
}

} // verus!
