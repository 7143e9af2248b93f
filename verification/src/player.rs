//! Playback: the schedule of a queue of sequences, the order in which the
//! queue is played each cycle, and the input that each recorded event injects.

use vstd::prelude::*;
use crate::sequence::{InputEvent, InputEventType, MouseButton};
use rand::rngs::ThreadRng;
use crate::play_order::{shuffle_order, PlayOrder};

verus! {

broadcast use vstd::seq_lib::group_seq_properties;

// ---- Windows input flags used by injected input ----

pub const MOUSEEVENTF_MOVE: u32 = 0x0001;
pub const MOUSEEVENTF_LEFTDOWN: u32 = 0x0002;
pub const MOUSEEVENTF_LEFTUP: u32 = 0x0004;
pub const MOUSEEVENTF_RIGHTDOWN: u32 = 0x0008;
pub const MOUSEEVENTF_RIGHTUP: u32 = 0x0010;
pub const MOUSEEVENTF_MIDDLEDOWN: u32 = 0x0020;
pub const MOUSEEVENTF_MIDDLEUP: u32 = 0x0040;
pub const MOUSEEVENTF_XDOWN: u32 = 0x0080;
pub const MOUSEEVENTF_XUP: u32 = 0x0100;
pub const MOUSEEVENTF_WHEEL: u32 = 0x0800;
pub const MOUSEEVENTF_VIRTUALDESK: u32 = 0x4000;
pub const MOUSEEVENTF_ABSOLUTE: u32 = 0x8000;
pub const XBUTTON1: u32 = 0x0001;
pub const XBUTTON2: u32 = 0x0002;
pub const KEYEVENTF_EXTENDEDKEY: u32 = 0x0001;
pub const KEYEVENTF_KEYUP: u32 = 0x0002;
pub const KEYEVENTF_SCANCODE: u32 = 0x0008;

/// The flags for an absolute move over the whole virtual desktop.
pub const MOUSE_MOVE_FLAGS: u32 = 0xC001;

/// One synthetic input, as handed to `SendInput`.
#[derive(Clone, Copy, Debug, PartialEq, Eq, Structural)]
pub enum InjectedInput {
    Mouse { flags: u32, dx: i32, dy: i32, mouse_data: i32 },
    Key { vk: u16, scan_code: u16, flags: u32 },
}

/// The mouse flags and the button data for a button going down or up.
pub open spec fn button_flags(button: MouseButton, pressed: bool) -> (u32, i32) {
    match button {
        MouseButton::Left => (if pressed { MOUSEEVENTF_LEFTDOWN } else { MOUSEEVENTF_LEFTUP }, 0),
        MouseButton::Right => (if pressed { MOUSEEVENTF_RIGHTDOWN } else { MOUSEEVENTF_RIGHTUP }, 0),
        MouseButton::Middle => (if pressed { MOUSEEVENTF_MIDDLEDOWN } else { MOUSEEVENTF_MIDDLEUP }, 0),
        MouseButton::X1 => (if pressed { MOUSEEVENTF_XDOWN } else { MOUSEEVENTF_XUP }, XBUTTON1 as i32),
        MouseButton::X2 => (if pressed { MOUSEEVENTF_XDOWN } else { MOUSEEVENTF_XUP }, XBUTTON2 as i32),
    }
}

/// The keyboard flags for a key going down or up: always by scan code, with
/// the extended-key bit where the key was extended.
pub open spec fn key_flags_spec(pressed: bool, extended: bool) -> u32 {
    (KEYEVENTF_SCANCODE + (if pressed { 0u32 } else { KEYEVENTF_KEYUP }) + (if extended {
        KEYEVENTF_EXTENDEDKEY
    } else {
        0u32
    })) as u32
}

/// The input that replays a recorded event, for every kind of event but a
/// mouse move (whose absolute coordinates are scaled to the desktop in
/// floating point by the caller).
pub open spec fn injected_input_spec(event: InputEventType) -> Option<InjectedInput> {
    match event {
        InputEventType::MouseMove { .. } => None,
        InputEventType::MouseButton { button, pressed } => Some(
            InjectedInput::Mouse {
                flags: button_flags(button, pressed).0,
                dx: 0,
                dy: 0,
                mouse_data: button_flags(button, pressed).1,
            },
        ),
        InputEventType::MouseWheel { delta } => Some(
            InjectedInput::Mouse { flags: MOUSEEVENTF_WHEEL, dx: 0, dy: 0, mouse_data: delta },
        ),
        InputEventType::KeyPress { vk_code, scan_code, pressed, extended } => Some(
            InjectedInput::Key { vk: vk_code, scan_code, flags: key_flags_spec(pressed, extended) },
        ),
    }
}

/// The Windows mouse flags and button data for a button going down, as
/// `SendInput` defines them: left 0x0002, right 0x0008, middle 0x0020, and
/// 0x0080 with button data 1 or 2 for the first and second X buttons.
pub open spec fn windows_button_down(button: MouseButton) -> (u32, i32) {
    match button {
        MouseButton::Left => (0x0002, 0),
        MouseButton::Right => (0x0008, 0),
        MouseButton::Middle => (0x0020, 0),
        MouseButton::X1 => (0x0080, 1),
        MouseButton::X2 => (0x0080, 2),
    }
}

/// A recorded button event is replayed on the same button, going the same
/// way: a press injects that button's down flag (with its button data), a
/// release the up flag, which Windows defines as twice the down flag. So
/// different buttons never replay as one another, and a press never as a
/// release.
pub proof fn lemma_buttons_replay_as_themselves(button: MouseButton, other: MouseButton, pressed: bool)
    ensures
        injected_input_spec(InputEventType::MouseButton { button, pressed: true }) == Some(
            InjectedInput::Mouse {
                flags: windows_button_down(button).0,
                dx: 0,
                dy: 0,
                mouse_data: windows_button_down(button).1,
            },
        ),
        injected_input_spec(InputEventType::MouseButton { button, pressed: false }) == Some(
            InjectedInput::Mouse {
                flags: (windows_button_down(button).0 * 2) as u32,
                dx: 0,
                dy: 0,
                mouse_data: windows_button_down(button).1,
            },
        ),
        button != other ==> injected_input_spec(InputEventType::MouseButton { button, pressed })
            != injected_input_spec(InputEventType::MouseButton { button: other, pressed }),
{
}

/// The keyboard flags for a key event.
pub fn key_event_flags(pressed: bool, extended: bool) -> (f: u32)
    ensures
        f == key_flags_spec(pressed, extended),
{
    let mut flags = KEYEVENTF_SCANCODE;
    if !pressed {
        flags = flags | KEYEVENTF_KEYUP;
        assert(KEYEVENTF_SCANCODE | KEYEVENTF_KEYUP == 0x000A) by (bit_vector);
    }
    if extended {
        assert(0x0008u32 | KEYEVENTF_EXTENDEDKEY == 0x0009) by (bit_vector);
        assert(0x000Au32 | KEYEVENTF_EXTENDEDKEY == 0x000B) by (bit_vector);
        flags = flags | KEYEVENTF_EXTENDEDKEY;
    }
    flags
}

/// The input that replays `event`; `None` for a mouse move.
pub fn injected_input(event: &InputEventType) -> (r: Option<InjectedInput>)
    ensures
        r == injected_input_spec(*event),
{
    match event {
        InputEventType::MouseMove { .. } => None,
        InputEventType::MouseButton { button, pressed } => {
            let (flags, data): (u32, i32) = match button {
                MouseButton::Left => (if *pressed { MOUSEEVENTF_LEFTDOWN } else { MOUSEEVENTF_LEFTUP }, 0),
                MouseButton::Right => (if *pressed { MOUSEEVENTF_RIGHTDOWN } else { MOUSEEVENTF_RIGHTUP }, 0),
                MouseButton::Middle => (if *pressed { MOUSEEVENTF_MIDDLEDOWN } else { MOUSEEVENTF_MIDDLEUP }, 0),
                MouseButton::X1 => (if *pressed { MOUSEEVENTF_XDOWN } else { MOUSEEVENTF_XUP }, 1),
                MouseButton::X2 => (if *pressed { MOUSEEVENTF_XDOWN } else { MOUSEEVENTF_XUP }, 2),
            };
            Some(InjectedInput::Mouse { flags, dx: 0, dy: 0, mouse_data: data })
        },
        InputEventType::MouseWheel { delta } => Some(
            InjectedInput::Mouse { flags: MOUSEEVENTF_WHEEL, dx: 0, dy: 0, mouse_data: *delta },
        ),
        InputEventType::KeyPress { vk_code, scan_code, pressed, extended } => Some(
            InjectedInput::Key {
                vk: *vk_code,
                scan_code: *scan_code,
                flags: key_event_flags(*pressed, *extended),
            },
        ),
    }
}

/// A tap of a key by scan code: the key going down, then up.
pub fn key_tap(vk: u16, scan_code: u16) -> (r: (InjectedInput, InjectedInput))
    ensures
        r.0 == (InjectedInput::Key { vk, scan_code, flags: key_flags_spec(true, false) }),
        r.1 == (InjectedInput::Key { vk, scan_code, flags: key_flags_spec(false, false) }),
        key_flags_spec(true, false) == KEYEVENTF_SCANCODE,
        key_flags_spec(false, false) == KEYEVENTF_SCANCODE | KEYEVENTF_KEYUP,
{
    assert(KEYEVENTF_SCANCODE | KEYEVENTF_KEYUP == 0x000A) by (bit_vector);
    (
        InjectedInput::Key { vk, scan_code, flags: key_event_flags(true, false) },
        InjectedInput::Key { vk, scan_code, flags: key_event_flags(false, false) },
    )
}

// ---- The schedule of a queue ----

/// The events of one queued sequence as they are played: the first event of
/// every sequence but the first in the cycle is played without its delay.
pub open spec fn lead_in(events: Seq<InputEvent>, zero_first: bool) -> Seq<InputEvent> {
    if zero_first && events.len() > 0 {
        events.update(0, InputEvent { delay_micros: 0, event_type: events[0].event_type })
    } else {
        events
    }
}

/// One cycle of a queue: the sequences in `order`, one after the other.
pub open spec fn queue_cycle(sequences: Seq<Vec<InputEvent>>, order: Seq<usize>) -> Seq<InputEvent>
    decreases order.len(),
{
    if order.len() == 0 {
        Seq::empty()
    } else {
        queue_cycle(sequences, order.drop_last()) + lead_in(
            sequences[order.last() as int]@,
            order.len() > 1,
        )
    }
}

/// The positions `0, 1, .., n - 1`.
pub open spec fn identity_order(n: nat) -> Seq<usize> {
    Seq::new(n, |i: int| i as usize)
}

/// `order` lists each of the positions `0 .. n` exactly once.
pub open spec fn is_order_of(order: Seq<usize>, n: nat) -> bool {
    order.to_multiset() == identity_order(n).to_multiset()
}

/// Each entry of an order of `n` positions is below `n`, and there are `n`.
pub proof fn lemma_order_entries(order: Seq<usize>, n: nat)
    requires
        is_order_of(order, n),
    ensures
        order.len() == n,
        forall|i: int| 0 <= i < order.len() ==> #[trigger] order[i] < n,
{
    broadcast use vstd::seq_lib::group_to_multiset_ensures;

    assert(order.len() == order.to_multiset().len());
    assert(identity_order(n).len() == identity_order(n).to_multiset().len());
    assert forall|i: int| 0 <= i < order.len() implies #[trigger] order[i] < n by {
        assert(order.contains(order[i]));
        assert(order.to_multiset().count(order[i]) > 0);
        assert(identity_order(n).contains(order[i]));
    }
}

/// The order `0, 1, .., n - 1`.
pub fn initial_order(n: usize) -> (order: Vec<usize>)
    ensures
        order@ == identity_order(n as nat),
        is_order_of(order@, n as nat),
{
    let mut order: Vec<usize> = Vec::new();
    let mut i: usize = 0;
    while i < n
        invariant
            i <= n,
            order@ == identity_order(i as nat),
        decreases n - i,
    {
        order.push(i);
        i = i + 1;
        assert(order@ =~= identity_order(i as nat));
    }
    order
}

/// The thread-local generator behind shuffled queues.
#[verifier::external_type_specification]
#[verifier::external_body]
pub struct ExThreadRng(ThreadRng);

/// Calls `rand::thread_rng`. Nothing is stated of the generator; it panics only
/// where the operating system cannot seed it.
#[verifier::external_body]
fn thread_rng() -> ThreadRng {
    rand::thread_rng()
}

/// The events of one cycle of the queue, in `order`.
pub fn queue_cycle_events(sequences: &Vec<Vec<InputEvent>>, order: &Vec<usize>) -> (events: Vec<
    InputEvent,
>)
    requires
        forall|i: int| 0 <= i < order.len() ==> #[trigger] order[i] < sequences.len(),
    ensures
        events@ == queue_cycle(sequences@, order@),
{
    let mut events: Vec<InputEvent> = Vec::new();
    let mut k: usize = 0;
    while k < order.len()
        invariant
            k <= order.len(),
            forall|i: int| 0 <= i < order.len() ==> #[trigger] order[i] < sequences.len(),
            events@ == queue_cycle(sequences@, order@.take(k as int)),
        decreases order.len() - k,
    {
        let ghost before = events@;
        let seq_events = &sequences[order[k]];
        let mut j: usize = 0;
        while j < seq_events.len()
            invariant
                j <= seq_events.len(),
                events@ == before + lead_in(seq_events@, k > 0).take(j as int),
            decreases seq_events.len() - j,
        {
            let ev = seq_events[j];
            if k > 0 && j == 0 {
                events.push(InputEvent { delay_micros: 0, event_type: ev.event_type });
            } else {
                events.push(ev);
            }
            assert(events@ =~= before + lead_in(seq_events@, k > 0).take(j + 1));
            j = j + 1;
        }
        assert(lead_in(seq_events@, k > 0).take(j as int) =~= lead_in(seq_events@, k > 0));
        assert(order@.take(k + 1).drop_last() =~= order@.take(k as int));
        k = k + 1;
    }
    assert(order@.take(k as int) =~= order@);
    events
}

// ---- Playback as a state machine ----

/// What the playback thread does next.
#[derive(Clone, Copy, Debug, PartialEq, Eq, Structural)]
pub enum PlaybackAction {
    /// Wait `delay_micros` of the event, then inject it.
    Play(InputEvent),
    /// A cycle ended in loop mode; the next cycle starts (reshuffled where asked).
    CycleRestarted,
    /// The last cycle ended and loop mode was off.
    Finished,
    /// Playback was cancelled before the next event.
    Cancelled,
}

/// A running playback of a queue of sequences (a single sequence is a queue of
/// one): the sequences, their order in this cycle, the cycle's events and how
/// far into them playback is.
pub struct Playback {
    sequences: Vec<Vec<InputEvent>>,
    order: PlayOrder,
    cycle: Vec<InputEvent>,
    next: usize,
    done: bool,
    shuffle_allowed: bool,
}

impl Playback {
    pub closed spec fn sequences(&self) -> Seq<Vec<InputEvent>> {
        self.sequences@
    }

    pub closed spec fn order(&self) -> Seq<usize> {
        self.order.items()
    }

    /// How many random shuffles went into the current order.
    pub closed spec fn order_shuffles(&self) -> nat {
        self.order.shuffles()
    }

    /// The events of the current cycle.
    pub closed spec fn cycle(&self) -> Seq<InputEvent> {
        self.cycle@
    }

    /// How many events of the current cycle were handed out.
    pub closed spec fn played(&self) -> nat {
        self.next as nat
    }

    pub closed spec fn is_done(&self) -> bool {
        self.done
    }

    /// Whether the order may be reshuffled between cycles.
    pub closed spec fn shuffles(&self) -> bool {
        self.shuffle_allowed
    }

    /// The cycle is the queue in the current order, which lists every sequence
    /// once, and no more events were handed out than it holds.
    pub closed spec fn wf(&self) -> bool {
        &&& is_order_of(self.order.items(), self.sequences@.len())
        &&& self.cycle@ == queue_cycle(self.sequences@, self.order.items())
        &&& self.next <= self.cycle@.len()
    }

    /// Start the first cycle; with `shuffle`, its order is a random one.
    /// `reshuffles` says whether later cycles may be shuffled too.
    fn start(sequences: Vec<Vec<InputEvent>>, shuffle: bool, reshuffles: bool) -> (p: Self)
        ensures
            p.wf(),
            p.sequences() == sequences@,
            p.played() == 0,
            !p.is_done(),
            p.shuffles() == reshuffles,
            !shuffle ==> p.order() == identity_order(sequences@.len()),
            p.order_shuffles() == (if shuffle { 1nat } else { 0nat }),
    {
        let mut order = PlayOrder::new(initial_order(sequences.len()));
        if shuffle {
            let mut rng = thread_rng();
            shuffle_order(&mut order, &mut rng);
        }
        proof {
            lemma_order_entries(order.items(), sequences@.len());
        }
        let cycle = queue_cycle_events(&sequences, order.positions());
        Playback { sequences, order, cycle, next: 0, done: false, shuffle_allowed: reshuffles }
    }

    /// The next thing to do. Cancellation is seen before each event; at the
    /// end of a cycle playback stops unless loop mode is on, in which case the
    /// next cycle starts, in a fresh random order where `shuffle` is on for a
    /// shuffling playback. Once finished or cancelled it stays so.
    pub fn step(&mut self, cancelled: bool, loop_mode: bool, shuffle: bool) -> (a: PlaybackAction)
        requires
            old(self).wf(),
        ensures
            final(self).wf(),
            final(self).sequences() == old(self).sequences(),
            final(self).shuffles() == old(self).shuffles(),
            old(self).is_done() ==> a == PlaybackAction::Finished && *final(self) == *old(self),
            !old(self).is_done() && old(self).played() < old(self).cycle().len() ==> {
                if cancelled {
                    &&& a == PlaybackAction::Cancelled
                    &&& final(self).is_done()
                } else {
                    &&& a == PlaybackAction::Play(old(self).cycle()[old(self).played() as int])
                    &&& final(self).played() == old(self).played() + 1
                    &&& final(self).order() == old(self).order()
                    &&& final(self).order_shuffles() == old(self).order_shuffles()
                    &&& final(self).cycle() == old(self).cycle()
                    &&& !final(self).is_done()
                }
            },
            !old(self).is_done() && old(self).played() == old(self).cycle().len() ==> {
                if !loop_mode {
                    &&& a == PlaybackAction::Finished
                    &&& final(self).is_done()
                } else {
                    &&& a == PlaybackAction::CycleRestarted
                    &&& final(self).played() == 0
                    &&& !final(self).is_done()
                    &&& !(shuffle && old(self).shuffles()) ==> final(self).order() == old(self).order()
                        && final(self).order_shuffles() == old(self).order_shuffles()
                    &&& (shuffle && old(self).shuffles()) ==> final(self).order_shuffles()
                        == old(self).order_shuffles() + 1
                }
            },
    {
        if self.done {
            return PlaybackAction::Finished;
        }
        if self.next < self.cycle.len() {
            if cancelled {
                self.done = true;
                PlaybackAction::Cancelled
            } else {
                let ev = self.cycle[self.next];
                self.next = self.next + 1;
                PlaybackAction::Play(ev)
            }
        } else if !loop_mode {
            self.done = true;
            PlaybackAction::Finished
        } else {
            if shuffle && self.shuffle_allowed {
                let mut rng = thread_rng();
                shuffle_order(&mut self.order, &mut rng);
            }
            proof {
                lemma_order_entries(self.order.items(), self.sequences@.len());
            }
            self.cycle = queue_cycle_events(&self.sequences, self.order.positions());
            self.next = 0;
            PlaybackAction::CycleRestarted
        }
    }
}

/// Start playing a queue: nothing where the queue is empty or something is
/// already playing; otherwise a playback of all of it, whose first cycle is in
/// a random order where `shuffle` is on and in queue order where it is off,
/// and whose later cycles are shuffled whenever shuffle is on at their start.
pub fn play_queue(sequences: Vec<Vec<InputEvent>>, playing: bool, shuffle: bool) -> (r: Option<
    Playback,
>)
    ensures
        r is None <==> sequences@.len() == 0 || playing,
        r matches Some(p) ==> {
            &&& p.wf()
            &&& p.sequences() == sequences@
            &&& p.played() == 0
            &&& !p.is_done()
            &&& p.shuffles()
            &&& !shuffle ==> p.order() == identity_order(sequences@.len())
            &&& p.order_shuffles() == (if shuffle { 1nat } else { 0nat })
        },
{
    if sequences.len() == 0 || playing {
        None
    } else {
        Some(Playback::start(sequences, shuffle, true))
    }
}

/// Start playing one sequence: nothing where it has no events or something is
/// already playing; otherwise a playback whose every cycle is the sequence's
/// events exactly as recorded.
pub fn play_sequence(events: Vec<InputEvent>, playing: bool) -> (r: Option<Playback>)
    ensures
        r is None <==> events@.len() == 0 || playing,
        r matches Some(p) ==> {
            &&& p.wf()
            &&& p.sequences() == seq![events]
            &&& p.cycle() == events@
            &&& p.played() == 0
            &&& !p.is_done()
            &&& !p.shuffles()
        },
{
    if events.len() == 0 || playing {
        None
    } else {
        let ghost recorded = events@;
        let mut sequences: Vec<Vec<InputEvent>> = Vec::new();
        sequences.push(events);
        let p = Playback::start(sequences, false, false);
        proof {
            lemma_single_queue_plays_sequence(sequences@[0]);
            assert(identity_order(1) =~= seq![0usize]);
            assert(sequences@ =~= seq![sequences@[0]]);
        }
        Some(p)
    }
}

/// A queue of one sequence plays that sequence exactly as recorded.
pub proof fn lemma_single_queue_plays_sequence(events: Vec<InputEvent>)
    ensures
        queue_cycle(seq![events], seq![0usize]) == events@,
{
    let order = seq![0usize];
    assert(order.drop_last() =~= Seq::<usize>::empty());
    assert(queue_cycle(seq![events], order.drop_last()) =~= Seq::<InputEvent>::empty());
    assert(queue_cycle(seq![events], order) =~= events@);
}

/// Every cycle of a playback is its sequences one after the other, in an order
/// that lists each of them exactly once, and no event is handed out twice in
/// a cycle.
pub proof fn lemma_cycle_plays_each_once(p: &Playback)
    requires
        p.wf(),
    ensures
        is_order_of(p.order(), p.sequences().len()),
        p.order().len() == p.sequences().len(),
        forall|i: int| 0 <= i < p.order().len() ==> #[trigger] p.order()[i] < p.sequences().len(),
        p.cycle() == queue_cycle(p.sequences(), p.order()),
        p.played() <= p.cycle().len(),
{
    lemma_order_entries(p.order(), p.sequences().len());
}

} // verus!
