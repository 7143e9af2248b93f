//! The HP monitor's decisions: how far a sampled pixel is from the reference
//! color, when the monitor presses its key, and which game window it samples.

use vstd::prelude::*;
use crate::text::{chars_of, starts_with_spec};

verus! {

/// What `GetPixel` returns for a pixel it cannot read.
pub const CLR_INVALID: u32 = 0xFFFFFFFF;

/// The largest color distance that still counts as the reference color.
pub const COLOR_TOLERANCE: u32 = 48;

/// The red byte of a `COLORREF` (`0x00BBGGRR`).
pub open spec fn red(c: u32) -> int {
    c as int % 256
}

/// The green byte of a `COLORREF`.
pub open spec fn green(c: u32) -> int {
    (c as int / 256) % 256
}

/// The blue byte of a `COLORREF`.
pub open spec fn blue(c: u32) -> int {
    (c as int / 65536) % 256
}

pub open spec fn abs_diff(a: int, b: int) -> int {
    if a >= b {
        a - b
    } else {
        b - a
    }
}

/// The Manhattan distance of two colors over their red, green and blue bytes.
pub open spec fn color_distance(a: u32, b: u32) -> int {
    abs_diff(red(a), red(b)) + abs_diff(green(a), green(b)) + abs_diff(blue(a), blue(b))
}

fn channel(c: u32, shift: u32) -> (v: u32)
    requires
        shift == 0 || shift == 8 || shift == 16,
    ensures
        shift == 0 ==> v == red(c),
        shift == 8 ==> v == green(c),
        shift == 16 ==> v == blue(c),
        v < 256,
{
    let v = (c >> shift) & 0xFF;
    assert((c >> 0u32) & 0xFF == c % 256) by (bit_vector);
    assert((c >> 8u32) & 0xFF == (c / 256) % 256) by (bit_vector);
    assert((c >> 16u32) & 0xFF == (c / 65536) % 256) by (bit_vector);
    assert(v < 256) by (bit_vector)
        requires
            v == (c >> shift) & 0xFF,
    ;
    v
}

fn byte_diff(a: u32, b: u32) -> (d: u32)
    requires
        a < 256,
        b < 256,
    ensures
        d == abs_diff(a as int, b as int),
{
    if a >= b {
        a - b
    } else {
        b - a
    }
}

/// The distance of two colors, the sum of the differences of their bytes.
pub fn color_dist(a: u32, b: u32) -> (d: u32)
    ensures
        d == color_distance(a, b),
        d <= 765,
{
    let dr = byte_diff(channel(a, 0), channel(b, 0));
    let dg = byte_diff(channel(a, 8), channel(b, 8));
    let db = byte_diff(channel(a, 16), channel(b, 16));
    dr + dg + db
}

/// A readable sample within the tolerance of the reference.
pub open spec fn matches_reference(color: u32, reference: u32) -> bool {
    color_distance(color, reference) <= COLOR_TOLERANCE
}

/// The monitor's state after one sample, and whether it presses its key: an
/// unreadable sample changes nothing; the key is pressed when an armed
/// monitor sees a color off the reference, which disarms it, and a disarmed
/// monitor is armed again by a color within the reference.
pub open spec fn hp_next(armed: bool, color: u32, reference: u32) -> (bool, bool) {
    if color == CLR_INVALID {
        (armed, false)
    } else if armed && !matches_reference(color, reference) {
        (false, true)
    } else if !armed && matches_reference(color, reference) {
        (true, false)
    } else {
        (armed, false)
    }
}

/// One sample of the monitored pixel: the new armed state and whether to
/// press the key.
pub fn hp_step(armed: bool, color: u32, reference: u32) -> (r: (bool, bool))
    ensures
        r == hp_next(armed, color, reference),
{
    if color == CLR_INVALID {
        return (armed, false);
    }
    let matches = color_dist(color, reference) <= COLOR_TOLERANCE;
    if armed && !matches {
        (false, true)
    } else if !armed && matches {
        (true, false)
    } else {
        (armed, false)
    }
}

/// Whether the monitor is armed after the samples, starting from `armed`.
pub open spec fn armed_after(armed: bool, samples: Seq<u32>, reference: u32) -> bool
    decreases samples.len(),
{
    if samples.len() == 0 {
        armed
    } else {
        hp_next(armed_after(armed, samples.drop_last(), reference), samples.last(), reference).0
    }
}

/// Whether the monitor presses its key at sample `i`.
pub open spec fn fires_at(armed: bool, samples: Seq<u32>, reference: u32, i: int) -> bool {
    hp_next(armed_after(armed, samples.take(i), reference), samples[i], reference).1
}

proof fn lemma_stays_disarmed(armed: bool, samples: Seq<u32>, reference: u32, m: int, n: int)
    requires
        0 <= m <= n <= samples.len(),
        !armed_after(armed, samples.take(m), reference),
        forall|k: int|
            m <= k < n ==> !(#[trigger] samples[k] != CLR_INVALID && matches_reference(
                samples[k],
                reference,
            )),
    ensures
        !armed_after(armed, samples.take(n), reference),
    decreases n - m,
{
    if m < n {
        assert(samples.take(m + 1).drop_last() =~= samples.take(m));
        assert(samples.take(m + 1).last() == samples[m]);
        lemma_stays_disarmed(armed, samples, reference, m + 1, n);
    }
}

/// The key is pressed once per departure from the reference color: between
/// two presses the pixel was seen back within the tolerance.
pub proof fn lemma_one_press_per_departure(
    armed: bool,
    samples: Seq<u32>,
    reference: u32,
    i: int,
    j: int,
)
    requires
        0 <= i < j < samples.len(),
        fires_at(armed, samples, reference, i),
        fires_at(armed, samples, reference, j),
    ensures
        exists|k: int|
            i < k < j && #[trigger] samples[k] != CLR_INVALID && matches_reference(
                samples[k],
                reference,
            ),
{
    assert(samples.take(i + 1).drop_last() =~= samples.take(i));
    assert(samples.take(i + 1).last() == samples[i]);
    assert(!armed_after(armed, samples.take(i + 1), reference));
    if !(exists|k: int|
        i < k < j && #[trigger] samples[k] != CLR_INVALID && matches_reference(
            samples[k],
            reference,
        )) {
        lemma_stays_disarmed(armed, samples, reference, i + 1, j);
    }
}

/// The monitor starts only once a reference color was sampled (black, zero,
/// stands for none).
pub fn monitor_configured(reference: u32) -> (b: bool)
    ensures
        b == (reference != 0),
{
    reference != 0
}

/// The pause between two samples, in milliseconds.
pub const HP_POLL_MS: u64 = 200;

/// The pause while the game window cannot be found, in milliseconds.
pub const HP_WINDOW_WAIT_MS: u64 = 500;

/// Whether the monitor can sample now, or the pause before it looks again:
/// anchored to a game window, it waits for the window to exist and to be in
/// the foreground; in either mode it waits for a device context.
pub fn sample_delay(anchored: bool, window_found: bool, foreground: bool, dc_ok: bool) -> (r: Option<
    u64,
>)
    ensures
        anchored && !window_found ==> r == Some(HP_WINDOW_WAIT_MS),
        anchored && window_found && !foreground ==> r == Some(HP_POLL_MS),
        (!anchored || (window_found && foreground)) && !dc_ok ==> r == Some(HP_POLL_MS),
        (!anchored || (window_found && foreground)) && dc_ok ==> r is None,
{
    if anchored {
        if !window_found {
            return Some(HP_WINDOW_WAIT_MS);
        }
        if !foreground {
            return Some(HP_POLL_MS);
        }
    }
    if !dc_ok {
        return Some(HP_POLL_MS);
    }
    None
}

/// Whether the last readable sample was within the tolerance of the
/// reference; true where no sample was readable yet.
pub open spec fn last_readable_matches(samples: Seq<u32>, reference: u32) -> bool
    decreases samples.len(),
{
    if samples.len() == 0 {
        true
    } else if samples.last() == CLR_INVALID {
        last_readable_matches(samples.drop_last(), reference)
    } else {
        matches_reference(samples.last(), reference)
    }
}

/// A monitor started armed is armed exactly when the last readable sample
/// matched the reference (or none was readable yet).
pub proof fn lemma_armed_is_last_match(samples: Seq<u32>, reference: u32)
    ensures
        armed_after(true, samples, reference) == last_readable_matches(samples, reference),
    decreases samples.len(),
{
    if samples.len() > 0 {
        lemma_armed_is_last_match(samples.drop_last(), reference);
    }
}

/// The HP monitor's law, for a monitor started armed as its worker starts:
/// it presses its key at a sample exactly when that sample is readable and
/// off the reference while the last readable sample before it was within it
/// (or there was none): one press per departure from the reference.
pub proof fn lemma_press_iff_departure(samples: Seq<u32>, reference: u32, k: int)
    requires
        0 <= k < samples.len(),
    ensures
        fires_at(true, samples, reference, k) <==> (samples[k] != CLR_INVALID
            && !matches_reference(samples[k], reference) && last_readable_matches(
            samples.take(k),
            reference,
        )),
{
    lemma_armed_is_last_match(samples.take(k), reference);
}

/// The index of the window to sample among the windows of the game's class,
/// given their titles in enumeration order.
pub fn find_window_matching(titles: &Vec<String>, title_prefix: &str) -> (r: Option<usize>)
    ensures
        r is None <==> titles@.len() == 0,
        r matches Some(i) ==> i < titles@.len(),
        r matches Some(i) ==> (title_prefix@.len() == 0 ==> i == 0),
        r matches Some(i) ==> (title_prefix@.len() > 0 ==> ({
            ||| starts_with_spec(titles@[i as int]@, title_prefix@) && forall|k: int|
                0 <= k < i ==> !starts_with_spec(#[trigger] titles@[k]@, title_prefix@)
            ||| i == 0 && forall|k: int|
                0 <= k < titles@.len() ==> !starts_with_spec(#[trigger] titles@[k]@, title_prefix@)
        })),
{
    if titles.len() == 0 {
        return None;
    }
    let prefix = chars_of(title_prefix);
    if prefix.len() == 0 {
        return Some(0);
    }
    let mut i: usize = 0;
    while i < titles.len()
        invariant
            i <= titles.len(),
            prefix@ == title_prefix@,
            prefix@.len() > 0,
            forall|k: int| 0 <= k < i ==> !starts_with_spec(#[trigger] titles@[k]@, title_prefix@),
        decreases titles.len() - i,
    {
        let t = chars_of(titles[i].as_str());
        if crate::text::starts_with(&t, &prefix) {
            return Some(i);
        }
        i = i + 1;
    }
    Some(0)
}

} // verus!
