//! The high-resolution timer's arithmetic and the plan of a precise wait.

use vstd::prelude::*;

verus! {

/// Above this many microseconds, a wait sleeps before it spins.
pub const SPIN_WAIT_THRESHOLD_MICROS: i64 = 2000;

/// How much of a long wait is left to the spin.
pub const SPIN_WAIT_MARGIN_MICROS: i64 = 1500;

/// Rust's integer division, which rounds toward zero.
pub open spec fn div_toward_zero(a: int, b: int) -> int
    recommends
        b > 0,
{
    if a >= 0 {
        a / b
    } else {
        -((-a) / b)
    }
}

/// The high-resolution counter's frequency, in ticks per second, read once
/// from `QueryPerformanceFrequency` by the caller.
pub struct PrecisionTimer {
    frequency: i64,
}

/// Ticks as microseconds at `frequency` ticks per second, rounded toward zero.
pub open spec fn micros_of_ticks(ticks: int, frequency: int) -> int {
    div_toward_zero(ticks * 1_000_000, frequency)
}

/// Microseconds as ticks at `frequency` ticks per second, rounded toward zero.
pub open spec fn ticks_of_micros(micros: int, frequency: int) -> int {
    div_toward_zero(micros * frequency, 1_000_000)
}

/// The plan of a wait of `micros`: the ticks to spin until, and the whole
/// milliseconds to sleep first (all but the last 1.5 ms of a wait above 2 ms).
pub open spec fn wait_plan_spec(micros: int, frequency: int) -> Option<(int, int)> {
    if micros <= 0 {
        None
    } else {
        Some(
            (
                ticks_of_micros(micros, frequency),
                if micros > SPIN_WAIT_THRESHOLD_MICROS {
                    (micros - SPIN_WAIT_MARGIN_MICROS) / 1000
                } else {
                    0
                },
            ),
        )
    }
}

/// A precise wait never sleeps into its last 1.5 ms, and the tick count it
/// spins to is, in microseconds, no later than the wait asked for.
pub proof fn lemma_wait_plan_within_deadline(micros: int, frequency: int)
    requires
        micros > 0,
        frequency > 0,
    ensures
        wait_plan_spec(micros, frequency) matches Some((target, sleep)) && 0 <= target && 0 <= sleep
            && (sleep == 0 || sleep * 1000 + SPIN_WAIT_MARGIN_MICROS <= micros)
            && micros_of_ticks(target, frequency) <= micros,
{
    let target = ticks_of_micros(micros, frequency);
    assert(micros * frequency >= 0) by (nonlinear_arith)
        requires
            micros > 0,
            frequency > 0,
    ;
    assert(target == (micros * frequency) / 1_000_000);
    assert(target >= 0 && target * 1_000_000 <= micros * frequency) by (nonlinear_arith)
        requires
            target == (micros * frequency) / 1_000_000,
            micros * frequency >= 0,
    ;
    assert((target * 1_000_000) / frequency <= micros) by (nonlinear_arith)
        requires
            target * 1_000_000 <= micros * frequency,
            target >= 0,
            frequency > 0,
    ;
}

impl PrecisionTimer {
    pub closed spec fn frequency(&self) -> int {
        self.frequency as int
    }

    /// A timer for a counter of `frequency` ticks per second.
    pub fn new(frequency: i64) -> (t: Self)
        ensures
            t.frequency() == frequency,
    {
        PrecisionTimer { frequency }
    }

    /// The counter's frequency, in ticks per second.
    pub fn frequency_ticks(&self) -> (f: i64)
        ensures
            f == self.frequency(),
    {
        self.frequency
    }

    /// Ticks as microseconds, rounded toward zero.
    pub fn ticks_to_micros(&self, ticks: i64) -> (m: i64)
        requires
            self.frequency() > 0,
            i64::MIN <= ticks * 1_000_000 <= i64::MAX,
        ensures
            m == micros_of_ticks(ticks as int, self.frequency()),
    {
        (ticks * 1_000_000) / self.frequency
    }

    /// The plan of a precise wait of `micros`: nothing for a wait that is not
    /// positive; else the tick count to spin until and the milliseconds to
    /// sleep before spinning.
    pub fn wait_plan(&self, micros: i64) -> (r: Option<(i64, u64)>)
        requires
            self.frequency() > 0,
            micros * self.frequency() <= i64::MAX,
        ensures
            match wait_plan_spec(micros as int, self.frequency()) {
                None => r is None,
                Some((target, sleep)) => r == Some((target as i64, sleep as u64)),
            },
    {
        if micros <= 0 {
            return None;
        }
        assert(micros * self.frequency() >= 0) by (nonlinear_arith)
            requires
                micros > 0,
                self.frequency() > 0,
        ;
        let target_ticks = (micros * self.frequency) / 1_000_000;
        let sleep_ms: u64 = if micros > SPIN_WAIT_THRESHOLD_MICROS {
            ((micros - SPIN_WAIT_MARGIN_MICROS) / 1000) as u64
        } else {
            0
        };
        Some((target_ticks, sleep_ms))
    }

    /// The spin of a wait is over once the ticks since its start reach the target.
    pub fn wait_is_over(&self, elapsed_ticks: i64, target_ticks: i64) -> (b: bool)
        ensures
            b == (elapsed_ticks >= target_ticks),
    {
        elapsed_ticks >= target_ticks
    }
}

} // verus!
