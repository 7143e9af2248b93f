//! Burst fire: a key tapped at a fixed rate, scheduled against the time since
//! the burst began so that the long-run rate does not drift, until the burst
//! is stopped or the game window loses the focus.

use vstd::prelude::*;
use crate::worker::WorkerFlags;

verus! {

/// The key that a burst taps (Q).
pub const BURST_VK: u16 = 0x51;

/// The slowest rate of a burst, in taps per second.
pub const MIN_RATE_HZ: u32 = 50;

/// The fastest rate of a burst, in taps per second.
pub const MAX_RATE_HZ: u32 = 200;

/// The requested rate, held within the allowed range.
pub open spec fn clamp_rate(rate_hz: int) -> int {
    if rate_hz < MIN_RATE_HZ {
        MIN_RATE_HZ as int
    } else if rate_hz > MAX_RATE_HZ {
        MAX_RATE_HZ as int
    } else {
        rate_hz
    }
}

/// The rate a burst runs at for a requested rate.
pub fn burst_rate(rate_hz: u32) -> (r: u32)
    ensures
        r == clamp_rate(rate_hz as int),
        MIN_RATE_HZ <= r <= MAX_RATE_HZ,
{
    if rate_hz < MIN_RATE_HZ {
        MIN_RATE_HZ
    } else if rate_hz > MAX_RATE_HZ {
        MAX_RATE_HZ
    } else {
        rate_hz
    }
}

/// A worker that samples or watches a game window does so only when a window
/// class was configured; without one it runs in the legacy mode.
pub fn uses_window_anchor(window_class: &str) -> (b: bool)
    ensures
        b == (window_class@.len() > 0),
{
    !window_class.is_empty()
}

/// What a burst does at the top of its loop.
#[derive(Clone, Copy, Debug, PartialEq, Eq, Structural)]
pub enum BurstStep {
    /// It was asked to stop.
    Stop,
    /// The game window it watches is no longer in the foreground.
    FocusLost,
    /// It taps the key once more.
    Fire,
}

/// A running burst: the interval between taps, the taps so far, and whether
/// it watches the focus of a game window.
pub struct BurstRun {
    interval: i64,
    ticks: i64,
    watch_focus: bool,
}

impl BurstRun {
    pub closed spec fn interval(&self) -> int {
        self.interval as int
    }

    pub closed spec fn ticks(&self) -> int {
        self.ticks as int
    }

    pub closed spec fn watches_focus(&self) -> bool {
        self.watch_focus
    }

    pub open spec fn wf(&self) -> bool {
        &&& 1_000_000int / (MAX_RATE_HZ as int) <= self.interval() <= 1_000_000int / (MIN_RATE_HZ as int)
        &&& self.ticks() >= 0
    }

    /// A burst at the requested rate; `watch_focus` where a game window was
    /// found when it began.
    pub fn new(rate_hz: u32, watch_focus: bool) -> (b: Self)
        ensures
            b.wf(),
            b.interval() == 1_000_000int / clamp_rate(rate_hz as int),
            b.ticks() == 0,
            b.watches_focus() == watch_focus,
    {
        let rate = burst_rate(rate_hz);
        let interval: u32 = 1_000_000 / rate;
        assert(5000 <= interval <= 20000) by (nonlinear_arith)
            requires
                50 <= rate <= 200,
                interval == 1_000_000int / (rate as int),
        ;
        BurstRun { interval: interval as i64, ticks: 0, watch_focus }
    }

    /// The interval between taps, in microseconds.
    pub fn interval_micros(&self) -> (i: i64)
        ensures
            i == self.interval(),
    {
        self.interval
    }

    /// The taps so far.
    pub fn tick_count(&self) -> (t: i64)
        ensures
            t == self.ticks(),
    {
        self.ticks
    }

    /// The decision at the top of the loop: a stop request ends the burst,
    /// then a watched window out of the foreground, else the key is tapped.
    pub fn check(&self, cancelled: bool, foreground_is_game: bool) -> (s: BurstStep)
        ensures
            cancelled ==> s == BurstStep::Stop,
            !cancelled && self.watches_focus() && !foreground_is_game ==> s == BurstStep::FocusLost,
            !cancelled && !(self.watches_focus() && !foreground_is_game) ==> s == BurstStep::Fire,
    {
        if cancelled {
            BurstStep::Stop
        } else if self.watch_focus && !foreground_is_game {
            BurstStep::FocusLost
        } else {
            BurstStep::Fire
        }
    }

    /// Count a tap and give the wait until the next one is due, measured
    /// from the start of the burst: none where the burst is behind.
    pub fn schedule(&mut self, elapsed_micros: i64) -> (wait: Option<i64>)
        requires
            old(self).wf(),
            elapsed_micros >= 0,
            (old(self).ticks() + 1) * old(self).interval() <= i64::MAX,
        ensures
            final(self).wf(),
            final(self).ticks() == old(self).ticks() + 1,
            final(self).interval() == old(self).interval(),
            final(self).watches_focus() == old(self).watches_focus(),
            wait is Some <==> elapsed_micros < final(self).ticks() * final(self).interval(),
            wait matches Some(w) ==> elapsed_micros + w == final(self).ticks() * final(self).interval(),
    {
        assert(self.ticks + 1 <= i64::MAX) by (nonlinear_arith)
            requires
                (self.ticks + 1) * self.interval <= i64::MAX,
                self.interval >= 1,
                self.ticks >= 0,
        ;
        self.ticks = self.ticks + 1;
        assert(self.ticks * self.interval >= 0) by (nonlinear_arith)
            requires
                self.ticks >= 0,
                self.interval >= 0,
        ;
        let target = self.ticks * self.interval;
        let remaining = target - elapsed_micros;
        if remaining > 0 {
            Some(remaining)
        } else {
            None
        }
    }
}

/// Where the UI asked to be woken when a burst ends by itself: only a
/// registered thread and message.
pub fn should_notify(thread_id: u32, msg: u32) -> (b: bool)
    ensures
        b == (thread_id != 0 && msg != 0),
{
    thread_id != 0 && msg != 0
}

/// The end of a burst's run: the worker is marked as ended first, and then
/// the UI is woken exactly once, by the registered thread and message, where
/// both were registered (a zero in either disables the wake-up).
pub fn burst_finished(flags: &mut WorkerFlags, notify: (u32, u32)) -> (post: Option<(u32, u32)>)
    ensures
        !final(flags).active,
        final(flags).cancel == old(flags).cancel,
        post == (if notify.0 != 0 && notify.1 != 0 {
            Some(notify)
        } else {
            None
        }),
{
    flags.finished();
    if should_notify(notify.0, notify.1) {
        Some(notify)
    } else {
        None
    }
}

} // verus!
