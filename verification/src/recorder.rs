//! Recording: what the low-level hooks turn into events, and the recording
//! that collects them with their delays.

use vstd::prelude::*;
use crate::sequence::{InputEvent, InputEventType, MouseButton};
use crate::timing::{PrecisionTimer, micros_of_ticks};
use crate::player::{injected_input_spec, InjectedInput};

verus! {

// ---- Window messages and hook flags ----

pub const WM_KEYDOWN: u32 = 0x0100;
pub const WM_KEYUP: u32 = 0x0101;
pub const WM_SYSKEYDOWN: u32 = 0x0104;
pub const WM_SYSKEYUP: u32 = 0x0105;
pub const WM_MOUSEMOVE: u32 = 0x0200;
pub const WM_LBUTTONDOWN: u32 = 0x0201;
pub const WM_LBUTTONUP: u32 = 0x0202;
pub const WM_RBUTTONDOWN: u32 = 0x0204;
pub const WM_RBUTTONUP: u32 = 0x0205;
pub const WM_MBUTTONDOWN: u32 = 0x0207;
pub const WM_MBUTTONUP: u32 = 0x0208;
pub const WM_MOUSEWHEEL: u32 = 0x020A;
pub const WM_XBUTTONDOWN: u32 = 0x020B;
pub const WM_XBUTTONUP: u32 = 0x020C;
/// `MSLLHOOKSTRUCT.flags`: the event was injected.
pub const LLMHF_INJECTED: u32 = 0x01;
/// `KBDLLHOOKSTRUCT.flags`: the key is an extended key.
pub const LLKHF_EXTENDED: u32 = 0x01;
/// `KBDLLHOOKSTRUCT.flags`: the event was injected.
pub const LLKHF_INJECTED: u32 = 0x10;

/// The high word of a hook's mouse data, read as a signed 16-bit value.
pub open spec fn high_word_signed(data: u32) -> int {
    let hi = data as int / 65536;
    if hi >= 0x8000 {
        hi - 0x10000
    } else {
        hi
    }
}

/// The X button named by the high word of a hook's mouse data.
pub open spec fn x_button(data: u32) -> MouseButton {
    if data as int / 65536 == 1 {
        MouseButton::X1
    } else {
        MouseButton::X2
    }
}

/// The event that the low-level mouse hook records for a message; nothing for
/// injected input (such as playback) and for other messages.
pub open spec fn mouse_event_spec(msg: u32, x: i32, y: i32, mouse_data: u32, flags: u32) -> Option<
    InputEventType,
> {
    if flags as int % 2 == 1 {
        None
    } else if msg == WM_MOUSEMOVE {
        Some(InputEventType::MouseMove { x, y })
    } else if msg == WM_LBUTTONDOWN {
        Some(InputEventType::MouseButton { button: MouseButton::Left, pressed: true })
    } else if msg == WM_LBUTTONUP {
        Some(InputEventType::MouseButton { button: MouseButton::Left, pressed: false })
    } else if msg == WM_RBUTTONDOWN {
        Some(InputEventType::MouseButton { button: MouseButton::Right, pressed: true })
    } else if msg == WM_RBUTTONUP {
        Some(InputEventType::MouseButton { button: MouseButton::Right, pressed: false })
    } else if msg == WM_MBUTTONDOWN {
        Some(InputEventType::MouseButton { button: MouseButton::Middle, pressed: true })
    } else if msg == WM_MBUTTONUP {
        Some(InputEventType::MouseButton { button: MouseButton::Middle, pressed: false })
    } else if msg == WM_MOUSEWHEEL {
        Some(InputEventType::MouseWheel { delta: high_word_signed(mouse_data) as i32 })
    } else if msg == WM_XBUTTONDOWN {
        Some(InputEventType::MouseButton { button: x_button(mouse_data), pressed: true })
    } else if msg == WM_XBUTTONUP {
        Some(InputEventType::MouseButton { button: x_button(mouse_data), pressed: false })
    } else {
        None
    }
}

/// The event to record for a low-level mouse hook notification.
pub fn mouse_hook_event(msg: u32, x: i32, y: i32, mouse_data: u32, flags: u32) -> (r: Option<
    InputEventType,
>)
    ensures
        r == mouse_event_spec(msg, x, y, mouse_data, flags),
{
    let injected = flags & LLMHF_INJECTED;
    assert(flags & 1u32 == flags % 2) by (bit_vector);
    if injected != 0 {
        return None;
    }
    let hi: u32 = (mouse_data >> 16) & 0xFFFF;
    assert((mouse_data >> 16u32) & 0xFFFF == mouse_data / 65536) by (bit_vector);
    if msg == WM_MOUSEMOVE {
        Some(InputEventType::MouseMove { x, y })
    } else if msg == WM_LBUTTONDOWN {
        Some(InputEventType::MouseButton { button: MouseButton::Left, pressed: true })
    } else if msg == WM_LBUTTONUP {
        Some(InputEventType::MouseButton { button: MouseButton::Left, pressed: false })
    } else if msg == WM_RBUTTONDOWN {
        Some(InputEventType::MouseButton { button: MouseButton::Right, pressed: true })
    } else if msg == WM_RBUTTONUP {
        Some(InputEventType::MouseButton { button: MouseButton::Right, pressed: false })
    } else if msg == WM_MBUTTONDOWN {
        Some(InputEventType::MouseButton { button: MouseButton::Middle, pressed: true })
    } else if msg == WM_MBUTTONUP {
        Some(InputEventType::MouseButton { button: MouseButton::Middle, pressed: false })
    } else if msg == WM_MOUSEWHEEL {
        let delta: i32 = if hi >= 0x8000 {
            hi as i32 - 0x10000
        } else {
            hi as i32
        };
        Some(InputEventType::MouseWheel { delta })
    } else if msg == WM_XBUTTONDOWN || msg == WM_XBUTTONUP {
        let button = if hi == 1 {
            MouseButton::X1
        } else {
            MouseButton::X2
        };
        Some(InputEventType::MouseButton { button, pressed: msg == WM_XBUTTONDOWN })
    } else {
        None
    }
}

/// The event that the low-level keyboard hook records: nothing for injected
/// input and for the application's own hotkeys (`filtered`); else the key, by
/// the low 16 bits of its codes, down for a key-down or system-key-down
/// message and up otherwise.
pub open spec fn key_event_spec(msg: u32, vk_code: u32, scan_code: u32, flags: u32, filtered: Seq<
    u16,
>) -> Option<InputEventType> {
    if (flags as int / 16) % 2 == 1 {
        None
    } else if filtered.contains((vk_code as int % 65536) as u16) {
        None
    } else {
        Some(
            InputEventType::KeyPress {
                vk_code: (vk_code as int % 65536) as u16,
                scan_code: (scan_code as int % 65536) as u16,
                pressed: msg == WM_KEYDOWN || msg == WM_SYSKEYDOWN,
                extended: flags as int % 2 == 1,
            },
        )
    }
}

fn low_word(v: u32) -> (w: u16)
    ensures
        w == v as int % 65536,
{
    let m = v & 0xFFFF;
    assert(v & 0xFFFF == v % 65536) by (bit_vector);
    m as u16
}

/// The event to record for a low-level keyboard hook notification.
pub fn keyboard_hook_event(
    msg: u32,
    vk_code: u32,
    scan_code: u32,
    flags: u32,
    filtered: &Vec<u16>,
) -> (r: Option<InputEventType>)
    ensures
        r == key_event_spec(msg, vk_code, scan_code, flags, filtered@),
{
    assert(flags & 0x10u32 != 0 <==> (flags / 16) % 2 == 1) by (bit_vector);
    assert(flags & 1u32 == flags % 2) by (bit_vector);
    if flags & LLKHF_INJECTED != 0 {
        return None;
    }
    let vk = low_word(vk_code);
    assert((vk_code as int % 65536) as u16 == vk);
    let mut i: usize = 0;
    while i < filtered.len()
        invariant
            i <= filtered.len(),
            forall|k: int| 0 <= k < i ==> filtered@[k] != vk,
            (vk_code as int % 65536) as u16 == vk,
        decreases filtered.len() - i,
    {
        if filtered[i] == vk {
            assert(filtered@.contains(vk));
            return None;
        }
        i = i + 1;
    }
    assert(!filtered@.contains(vk));
    Some(
        InputEventType::KeyPress {
            vk_code: vk,
            scan_code: low_word(scan_code),
            pressed: msg == WM_KEYDOWN || msg == WM_SYSKEYDOWN,
            extended: (flags & LLKHF_EXTENDED) != 0,
        },
    )
}

// ---- The recording ----

/// A recording in progress: the events so far, the timer, and the tick of the
/// last event (or of the start).
pub struct RecordingState {
    events: Vec<InputEvent>,
    timer: PrecisionTimer,
    last_tick: i64,
    active: bool,
}

impl RecordingState {
    pub closed spec fn events(&self) -> Seq<InputEvent> {
        self.events@
    }

    pub closed spec fn frequency(&self) -> int {
        self.timer.frequency()
    }

    pub closed spec fn last_tick(&self) -> int {
        self.last_tick as int
    }

    pub closed spec fn active(&self) -> bool {
        self.active
    }

    /// Whether an event at tick `now` can be timed without overflow.
    pub open spec fn can_time(&self, now: i64) -> bool {
        &&& i64::MIN <= now - self.last_tick() <= i64::MAX
        &&& i64::MIN <= (now - self.last_tick()) * 1_000_000 <= i64::MAX
    }
}

/// Start a recording at tick `now` of a counter of `frequency` ticks per second.
pub fn start_recording(frequency: i64, now: i64) -> (s: RecordingState)
    ensures
        s.events() == Seq::<InputEvent>::empty(),
        s.frequency() == frequency,
        s.last_tick() == now,
        s.active(),
{
    RecordingState {
        events: Vec::new(),
        timer: PrecisionTimer::new(frequency),
        last_tick: now,
        active: true,
    }
}

/// Add an event seen at tick `now`, timed from the previous one; an inactive
/// recording ignores it.
pub fn push_event(state: &mut RecordingState, now: i64, event_type: InputEventType)
    requires
        old(state).frequency() > 0,
        old(state).active() ==> old(state).can_time(now),
    ensures
        final(state).frequency() == old(state).frequency(),
        final(state).active() == old(state).active(),
        !old(state).active() ==> *final(state) == *old(state),
        old(state).active() ==> {
            &&& final(state).events() == old(state).events().push(
                InputEvent {
                    delay_micros: micros_of_ticks(
                        now - old(state).last_tick(),
                        old(state).frequency(),
                    ) as i64,
                    event_type,
                },
            )
            &&& final(state).last_tick() == now
        },
{
    if !state.active {
        return;
    }
    let delay_micros = state.timer.ticks_to_micros(now - state.last_tick);
    state.last_tick = now;
    state.events.push(InputEvent { delay_micros, event_type });
}

/// Whether an event at tick `now` can be timed against the recording's last
/// one (see `push_event`).
pub fn can_time_now(state: &RecordingState, now: i64) -> (b: bool)
    ensures
        b == state.can_time(now),
{
    match now.checked_sub(state.last_tick) {
        Some(d) => d.checked_mul(1_000_000).is_some(),
        None => false,
    }
}

/// The counter's frequency, as the recording's timer holds it.
pub fn recording_frequency(state: &RecordingState) -> (f: i64)
    ensures
        f == state.frequency(),
{
    state.timer.frequency_ticks()
}

/// Whether a recording is running.
pub fn is_recording(state: &Option<RecordingState>) -> (b: bool)
    ensures
        b == (state matches Some(s) && s.active()),
{
    match state {
        Some(s) => s.active,
        None => false,
    }
}

/// End the recording, if there is one, and hand over its events.
pub fn stop_recording(state: &mut Option<RecordingState>) -> (r: Option<Vec<InputEvent>>)
    ensures
        *final(state) is None,
        match *old(state) {
            Some(s) => r matches Some(v) && v@ == s.events(),
            None => r is None,
        },
{
    match state.take() {
        Some(s) => Some(s.events),
        None => None,
    }
}

/// A recorded key goes down for the key-down and system-key-down messages
/// and up for the key-up and system-key-up messages; the two events of a key
/// differ in nothing else.
pub proof fn lemma_key_direction(vk_code: u32, scan_code: u32, flags: u32, filtered: Seq<u16>)
    ensures
        key_event_spec(0x0100, vk_code, scan_code, flags, filtered) matches Some(
            InputEventType::KeyPress { pressed, .. },
        ) ==> pressed,
        key_event_spec(0x0104, vk_code, scan_code, flags, filtered) matches Some(
            InputEventType::KeyPress { pressed, .. },
        ) ==> pressed,
        key_event_spec(0x0101, vk_code, scan_code, flags, filtered) matches Some(
            InputEventType::KeyPress { pressed, .. },
        ) ==> !pressed,
        key_event_spec(0x0105, vk_code, scan_code, flags, filtered) matches Some(
            InputEventType::KeyPress { pressed, .. },
        ) ==> !pressed,
        key_event_spec(0x0100, vk_code, scan_code, flags, filtered) is Some
            <==> key_event_spec(0x0105, vk_code, scan_code, flags, filtered) is Some,
        key_event_spec(0x0104, vk_code, scan_code, flags, filtered) matches Some(
            InputEventType::KeyPress { vk_code: v, scan_code: c, extended: e, .. },
        ) ==> key_event_spec(0x0105, vk_code, scan_code, flags, filtered) == Some(
            InputEventType::KeyPress { vk_code: v, scan_code: c, pressed: false, extended: e },
        ),
        key_event_spec(0x0100, vk_code, scan_code, flags, filtered) matches Some(
            InputEventType::KeyPress { vk_code: v, scan_code: c, extended: e, .. },
        ) ==> key_event_spec(0x0101, vk_code, scan_code, flags, filtered) == Some(
            InputEventType::KeyPress { vk_code: v, scan_code: c, pressed: false, extended: e },
        ),
{
}

/// A click recorded by the mouse hook replays as the same click: each button
/// message of a real (not injected) click becomes, through the recorded
/// event, the `SendInput` flag that Windows pairs with that message (left
/// 0x0002/0x0004, right 0x0008/0x0010, middle 0x0020/0x0040, X 0x0080/0x0100
/// with the X button's number as data).
pub proof fn lemma_recorded_clicks_replay_the_same(x: i32, y: i32, mouse_data: u32, flags: u32)
    requires
        flags % 2 == 0,
        mouse_data / 65536 == 1 || mouse_data / 65536 == 2,
    ensures
        ({
            let replay = |msg: u32| match mouse_event_spec(msg, x, y, mouse_data, flags) {
                Some(e) => injected_input_spec(e),
                None => None,
            };
            let click = |f: u32, d: i32| Some(InjectedInput::Mouse { flags: f, dx: 0, dy: 0, mouse_data: d });
            &&& replay(0x0201) == click(0x0002, 0)
            &&& replay(0x0202) == click(0x0004, 0)
            &&& replay(0x0204) == click(0x0008, 0)
            &&& replay(0x0205) == click(0x0010, 0)
            &&& replay(0x0207) == click(0x0020, 0)
            &&& replay(0x0208) == click(0x0040, 0)
            &&& replay(0x020B) == click(0x0080, (mouse_data / 65536) as i32)
            &&& replay(0x020C) == click(0x0100, (mouse_data / 65536) as i32)
        }),
{
}

} // verus!
