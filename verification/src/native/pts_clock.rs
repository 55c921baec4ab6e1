//! The audio wire clock: an anchor plus a running total of interleaved samples.
//!
//! A frame's label in microseconds is a real duration only when the rate divides it. Counting
//! samples cannot drift; adding up labels runs fast on the 44.1 kHz family.

use crate::native::pcm;
use vstd::arithmetic::div_mod::{
    lemma_div_is_ordered, lemma_div_pos_is_pos, lemma_fundamental_div_mod,
    lemma_hoist_over_denominator,
};
use vstd::prelude::*;

verus! {

/// Stamps outgoing audio frames. The anchor moves forward only.
pub struct PtsClock {
    /// Where the count starts.
    pub base_ns: u64,
    /// Interleaved samples charged since `base_ns`.
    pub samples: usize,
    pub rate_hz: u32,
    pub channels: u8,
    /// Interleaved samples in one second.
    pub samples_per_sec: usize,
}

impl PtsClock {
    /// The stamp this clock shows once `more` further samples have been charged to it.
    pub open spec fn after(self, more: int) -> int {
        self.base_ns + pcm::duration_of(self.samples + more, self.rate_hz, self.channels)
    }

    /// The stamp of the next frame to leave.
    pub open spec fn pts(self) -> int {
        self.after(0)
    }

    /// Both clocks count samples of one rate and channel count.
    pub open spec fn same_format(self, other: PtsClock) -> bool {
        self.rate_hz == other.rate_hz && self.channels == other.channels
    }

    /// At least one sample a second, and less than a second of samples not folded yet.
    pub open spec fn wf(self) -> bool {
        &&& self.rate_hz > 0
        &&& self.channels > 0
        &&& self.samples_per_sec == pcm::sample_rate(self.rate_hz, self.channels)
        &&& self.samples < self.samples_per_sec
    }

    pub fn new(rate_hz: u32, channels: u8) -> (c: PtsClock)
        requires
            rate_hz > 0,
            channels > 0,
            pcm::sample_rate(rate_hz, channels) <= usize::MAX,
        ensures
            c.wf(),
            c.rate_hz == rate_hz,
            c.channels == channels,
            forall|more: int| #[trigger]
                c.after(more) == pcm::duration_of(more, rate_hz, channels),
            c.pts() == 0,
            c.samples == 0,
    {
        proof {
            pcm::lemma_rate_bounds(rate_hz, channels);
            lemma_zero_samples(rate_hz, channels);
        }
        PtsClock {
            base_ns: 0,
            samples: 0,
            rate_hz,
            channels,
            samples_per_sec: rate_hz as usize * channels as usize,
        }
    }

    /// The stamp of the next frame to leave, real or synthesized.
    pub fn pts_ns(&self) -> (ns: u64)
        requires
            self.wf(),
            self.pts() <= u64::MAX,
        ensures
            ns == self.pts(),
    {
        proof {
            lemma_duration_nonnegative(self.samples as int, self.rate_hz, self.channels);
        }
        self.base_ns + pcm::frame_duration_ns(self.samples, self.rate_hz, self.channels)
    }

    /// Charges `samples` to the clock. Whole seconds are folded into the base so the count stays
    /// small; no stamp, now or later, depends on the fold.
    pub fn advance(&mut self, samples: usize)
        requires
            old(self).wf(),
            old(self).samples + samples <= usize::MAX,
            old(self).after(samples as int) <= u64::MAX,
        ensures
            final(self).wf(),
            final(self).same_format(*old(self)),
            final(self).pts() == old(self).after(samples as int),
            forall|more: int| #[trigger]
                final(self).after(more) == old(self).after(samples + more),
            final(self).samples == (old(self).samples + samples) % pcm::sample_rate(
                old(self).rate_hz,
                old(self).channels,
            ),
    {
        let ghost before = *self;
        self.samples = self.samples + samples;
        let total: usize = self.samples;
        if self.samples >= self.samples_per_sec {
            let secs: usize = self.samples / self.samples_per_sec;
            proof {
                let d = self.samples_per_sec as int;
                lemma_fundamental_div_mod(total as int, d);
                lemma_fold(self.rate_hz, self.channels, secs as int, total as int - secs * d);
                assert(secs * d == d * secs) by (nonlinear_arith);
                assert(secs * d <= total);
            }
            self.base_ns = self.base_ns + secs as u64 * pcm::NS_PER_SEC;
            self.samples = self.samples - secs * self.samples_per_sec;
            proof {
                let d = self.samples_per_sec as int;
                assert forall|more: int| #[trigger]
                    self.after(more) == before.after(samples + more) by {
                    lemma_fold(self.rate_hz, self.channels, secs as int, self.samples + more);
                    assert(secs * d == d * secs) by (nonlinear_arith);
                    assert(before.samples + (samples + more) == secs * d + (self.samples + more));
                }
            }
        } else {
            proof {
                vstd::arithmetic::div_mod::lemma_small_mod(
                    total as nat,
                    self.samples_per_sec as nat,
                );
                assert forall|more: int| #[trigger]
                    self.after(more) == before.after(samples + more) by {
                    assert(before.samples + (samples + more) == self.samples + more);
                }
            }
        }
        proof {
            assert(self.after(0) == before.after(samples + 0));
        }
    }

    /// Moves the anchor to `anchor_ns` when that is later than the next stamp. An earlier or
    /// equal anchor changes nothing: it would issue a stamp the client has already played.
    pub fn reanchor(&mut self, anchor_ns: u64)
        requires
            old(self).wf(),
            old(self).pts() <= u64::MAX,
        ensures
            final(self).wf(),
            final(self).same_format(*old(self)),
            final(self).pts() == if anchor_ns > old(self).pts() {
                anchor_ns as int
            } else {
                old(self).pts()
            },
            anchor_ns <= old(self).pts() ==> *final(self) == *old(self),
            anchor_ns > old(self).pts() ==> final(self).samples == 0,
            anchor_ns > old(self).pts() ==> forall|more: int| #[trigger]
                final(self).after(more) == anchor_ns + pcm::duration_of(
                    more,
                    old(self).rate_hz,
                    old(self).channels,
                ),
    {
        if anchor_ns > self.pts_ns() {
            proof {
                lemma_zero_samples(self.rate_hz, self.channels);
            }
            self.base_ns = anchor_ns;
            self.samples = 0;
        }
    }
}

proof fn lemma_zero_samples(rate_hz: u32, channels: u8)
    requires
        rate_hz > 0,
        channels > 0,
    ensures
        pcm::duration_of(0, rate_hz, channels) == 0,
{
    pcm::lemma_rate_bounds(rate_hz, channels);
    vstd::arithmetic::div_mod::lemma_div_basics(pcm::sample_rate(rate_hz, channels));
}

proof fn lemma_duration_nonnegative(samples: int, rate_hz: u32, channels: u8)
    requires
        samples >= 0,
        rate_hz > 0,
        channels > 0,
    ensures
        pcm::duration_of(samples, rate_hz, channels) >= 0,
{
    pcm::lemma_rate_bounds(rate_hz, channels);
    lemma_div_pos_is_pos(samples * 1_000_000_000, pcm::sample_rate(rate_hz, channels));
}

/// A whole number of seconds of samples lasts that many seconds.
proof fn lemma_fold(rate_hz: u32, channels: u8, secs: int, rest: int)
    requires
        rate_hz > 0,
        channels > 0,
    ensures
        pcm::duration_of(secs * pcm::sample_rate(rate_hz, channels) + rest, rate_hz, channels) == secs
            * 1_000_000_000 + pcm::duration_of(rest, rate_hz, channels),
{
    pcm::lemma_rate_bounds(rate_hz, channels);
    let d = pcm::sample_rate(rate_hz, channels);
    let x = rest * 1_000_000_000;
    let j = secs * 1_000_000_000;
    lemma_hoist_over_denominator(x, j, d as nat);
    assert((secs * d + rest) * 1_000_000_000 == x + j * d) by (nonlinear_arith)
        requires
            x == rest * 1_000_000_000,
            j == secs * 1_000_000_000,
    ;
}

/// Total of a run of sample counts.
pub open spec fn total(counts: Seq<nat>) -> int
    decreases counts.len(),
{
    if counts.len() == 0 {
        0
    } else {
        total(counts.drop_last()) + counts.last()
    }
}

/// Charging samples never moves the clock back.
pub proof fn clock_is_monotone(clock: PtsClock, fewer: int, more: int)
    requires
        clock.wf(),
        fewer <= more,
    ensures
        clock.after(fewer) <= clock.after(more),
{
    pcm::lemma_rate_bounds(clock.rate_hz, clock.channels);
    lemma_div_is_ordered(
        (clock.samples + fewer) * 1_000_000_000,
        (clock.samples + more) * 1_000_000_000,
        pcm::sample_rate(clock.rate_hz, clock.channels),
    );
}

/// However the samples were cut into frames, the clock shows the duration of their total: a run
/// of `advance` calls (`trace[i + 1]` is `trace[i]` advanced by `counts[i]`) ends where a single
/// one would.
pub proof fn clock_counts_samples(trace: Seq<PtsClock>, counts: Seq<nat>)
    requires
        trace.len() == counts.len() + 1,
        forall|i: int, more: int|
            0 <= i < counts.len() ==> (#[trigger] trace[i + 1].after(more)) == trace[i].after(
                counts[i] + more,
            ),
    ensures
        forall|more: int|
            #[trigger] trace.last().after(more) == trace[0].after(total(counts) + more),
    decreases counts.len(),
{
    if counts.len() > 0 {
        let n = counts.len() - 1;
        let t0 = trace.drop_last();
        let c0 = counts.drop_last();
        assert forall|i: int, more: int| 0 <= i < c0.len() implies (#[trigger] t0[i + 1].after(
            more,
        )) == t0[i].after(c0[i] + more) by {
            assert(trace[i + 1].after(more) == trace[i].after(counts[i] + more));
        }
        clock_counts_samples(t0, c0);
        assert forall|more: int| #[trigger]
            trace.last().after(more) == trace[0].after(total(counts) + more) by {
            assert(trace[n + 1].after(more) == trace[n].after(counts[n] + more));
            assert(t0.last().after(counts[n] + more) == t0[0].after(
                total(c0) + (counts[n] + more),
            ));
            assert(total(c0) + (counts[n] + more) == total(counts) + more);
        }
    } else {
        assert forall|more: int| #[trigger]
            trace.last().after(more) == trace[0].after(total(counts) + more) by {
            assert(total(counts) + more == more);
        }
    }
}

/// A stamp is the anchor and the time of the samples charged since; charging samples moves the
/// next stamp on by their time, and never back.
pub proof fn a_stamp_moves_on_by_its_samples(
    c: &mut PtsClock,
    samples: usize,
    after: &PtsClock,
    before_ns: u64,
    after_ns: u64,
)
    requires
        old(c).wf(),
        old(c).samples + samples <= usize::MAX,
        old(c).after(samples as int) <= u64::MAX,
        old(c).pts() <= u64::MAX,
        call_ensures(PtsClock::pts_ns, (old(c),), before_ns),
        call_ensures(PtsClock::advance, (c, samples), ()),
        *after == *final(c),
        call_ensures(PtsClock::pts_ns, (after,), after_ns),
    ensures
        before_ns == old(c).base_ns + old(c).samples * 1_000_000_000 / (old(c).rate_hz * old(
            c).channels),
        after_ns == old(c).base_ns + (old(c).samples + samples) * 1_000_000_000 / (old(c).rate_hz
            * old(c).channels),
        after_ns >= before_ns,
        samples == 0 ==> after_ns == before_ns,
        after.rate_hz == old(c).rate_hz && after.channels == old(c).channels,
{
    clock_is_monotone(*old(c), 0, samples as int);
}

/// The anchor moves the clock forward only: a later one is the next stamp, an earlier one changes
/// nothing.
pub proof fn the_anchor_moves_forward_only(
    c: &mut PtsClock,
    anchor_ns: u64,
    after: &PtsClock,
    before_ns: u64,
    after_ns: u64,
)
    requires
        old(c).wf(),
        old(c).pts() <= u64::MAX,
        call_ensures(PtsClock::pts_ns, (old(c),), before_ns),
        call_ensures(PtsClock::reanchor, (c, anchor_ns), ()),
        *after == *final(c),
        call_ensures(PtsClock::pts_ns, (after,), after_ns),
    ensures
        after_ns >= before_ns,
        after_ns >= anchor_ns,
        after_ns == before_ns || after_ns == anchor_ns,
        anchor_ns <= before_ns ==> *final(c) == *old(c),
        after.rate_hz == old(c).rate_hz && after.channels == old(c).channels,
{
}

/// A new clock begins at nothing, in its format.
pub proof fn a_new_clock_begins_at_nothing(rate_hz: u32, channels: u8, c: PtsClock, ns: u64)
    requires
        rate_hz > 0 && channels > 0,
        call_ensures(PtsClock::new, (rate_hz, channels), c),
        call_ensures(PtsClock::pts_ns, (&c,), ns),
    ensures
        ns == 0,
        c.wf(),
        c.rate_hz == rate_hz && c.channels == channels,
{
}

} // verus!
