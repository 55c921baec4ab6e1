//! Sample arithmetic of the PCM plane: how many interleaved samples a frame holds and how long
//! they last.

use vstd::prelude::*;

verus! {

/// Nanoseconds in one second.
pub const NS_PER_SEC: u64 = 1_000_000_000;

/// Microseconds in one second.
pub const US_PER_SEC: u64 = 1_000_000;

/// Whole samples per channel in `frame_us` microseconds.
pub open spec fn whole_samples(rate_hz: int, frame_us: int) -> int {
    rate_hz * frame_us / 1_000_000
}

/// Interleaved samples per second.
pub open spec fn sample_rate(rate_hz: u32, channels: u8) -> int {
    rate_hz * channels
}

/// How long `samples` interleaved samples last, rounded down to a nanosecond.
pub open spec fn duration_of(samples: int, rate_hz: u32, channels: u8) -> int {
    samples * 1_000_000_000 / sample_rate(rate_hz, channels)
}

/// Interleaved samples in a frame labelled `frame_us`: whole samples per channel, rounded down.
pub fn samples_per_frame(rate_hz: u32, frame_us: u32, channels: u8) -> (n: usize)
    requires
        whole_samples(rate_hz as int, frame_us as int) * channels <= usize::MAX,
    ensures
        n == whole_samples(rate_hz as int, frame_us as int) * channels,
{
    proof {
        lemma_label_product(rate_hz, frame_us);
    }
    let per_channel: u64 = rate_hz as u64 * frame_us as u64 / US_PER_SEC;
    proof {
        lemma_interleave(per_channel, channels);
    }
    let n: u64 = per_channel * channels as u64;
    n as usize
}

proof fn lemma_label_product(rate_hz: u32, frame_us: u32)
    ensures
        0 <= rate_hz * frame_us <= u64::MAX,
{
    assert(0 <= rate_hz * frame_us <= u64::MAX) by (nonlinear_arith);
}

proof fn lemma_interleave(per_channel: u64, channels: u8)
    requires
        per_channel <= 18_446_744_073_709,
    ensures
        0 <= per_channel * channels <= u64::MAX,
{
    assert(0 <= per_channel * channels <= u64::MAX) by (nonlinear_arith)
        requires
            per_channel <= 18_446_744_073_709,
    ;
}

/// Nanoseconds that `samples` interleaved samples last.
pub fn frame_duration_ns(samples: usize, rate_hz: u32, channels: u8) -> (ns: u64)
    requires
        rate_hz > 0,
        channels > 0,
        duration_of(samples as int, rate_hz, channels) <= u64::MAX,
    ensures
        ns == duration_of(samples as int, rate_hz, channels),
{
    proof {
        lemma_rate_bounds(rate_hz, channels);
        assert(0 <= samples * 1_000_000_000 <= u128::MAX);
    }
    let per_sec: u64 = rate_hz as u64 * channels as u64;
    let ns: u128 = samples as u128 * NS_PER_SEC as u128 / per_sec as u128;
    ns as u64
}

/// A rate with at least one channel carries at least one sample a second and fits a `u64`.
pub proof fn lemma_rate_bounds(rate_hz: u32, channels: u8)
    requires
        rate_hz > 0,
        channels > 0,
    ensures
        0 < sample_rate(rate_hz, channels) <= u32::MAX * 255,
{
    assert(0 < rate_hz * channels <= u32::MAX * 255) by (nonlinear_arith)
        requires
            rate_hz > 0,
            channels > 0,
    ;
}

/// A frame holds whole samples of every channel: as many as fit its label, and one more would not.
pub proof fn a_frame_holds_whole_samples(rate_hz: u32, frame_us: u32, channels: u8, n: usize)
    requires
        channels > 0,
        whole_samples(rate_hz as int, frame_us as int) * channels <= usize::MAX,
        call_ensures(samples_per_frame, (rate_hz, frame_us, channels), n),
    ensures
        exists|per: int| #[trigger]
            (per * channels) == n && 0 <= per && per * 1_000_000 <= rate_hz * frame_us < (per + 1)
                * 1_000_000,
{
    let product = rate_hz * frame_us;
    assert(product >= 0) by (nonlinear_arith)
        requires
            product == rate_hz * frame_us,
    ;
    let per = product / 1_000_000;
    assert(per * channels == n);
    assert(per * 1_000_000 <= product < (per + 1) * 1_000_000);
}

/// Samples last as long as their rate says, to the nanosecond below.
pub proof fn samples_last_as_their_rate_says(samples: usize, rate_hz: u32, channels: u8, ns: u64)
    requires
        rate_hz > 0,
        channels > 0,
        duration_of(samples as int, rate_hz, channels) <= u64::MAX,
        call_ensures(frame_duration_ns, (samples, rate_hz, channels), ns),
    ensures
        ns * (rate_hz * channels) <= samples * 1_000_000_000 < (ns + 1) * (rate_hz * channels),
{
    lemma_rate_bounds(rate_hz, channels);
    let d = rate_hz * channels;
    let x = samples * 1_000_000_000;
    vstd::arithmetic::div_mod::lemma_fundamental_div_mod(x, d);
    vstd::arithmetic::div_mod::lemma_mod_bound(x, d);
    assert(ns == x / d);
    assert(ns * d <= x < (ns + 1) * d) by (nonlinear_arith)
        requires
            x == d * (x / d) + x % d,
            0 <= x % d < d,
            ns == x / d,
    ;
}

} // verus!
