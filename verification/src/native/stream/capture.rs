//! Bookkeeping of captured frames: what counts as progress of the source, and when the seat
//! pointer is parked again.

use crate::native::stream::depth;
use vstd::prelude::*;

verus! {

/// What a capture attempt brought.
#[derive(Clone, Copy, Debug, PartialEq, Eq, Structural)]
pub enum Captured {
    /// A frame of the source.
    Source,
    /// The previous image with the pointer drawn anew: sent like any frame, but no evidence that
    /// the source lives.
    Regenerated,
    /// Nothing new: the last frame is repeated.
    Repeat,
}

#[derive(Clone, Copy, Debug, PartialEq, Eq, Structural)]
pub struct CaptureBook {
    pub new_frames: u64,
    pub regenerated: u64,
    pub repeats: u64,
    pub last_source_ns: Option<u64>,
    /// Estimate of the source's frame period.
    pub src_period_ns: Option<u64>,
    /// Capture rebuilds since the source last delivered.
    pub rebuilds: u32,
}

impl CaptureBook {
    /// The estimate after a source frame at `at_ns`.
    pub open spec fn period_at(self, at_ns: u64, interval_ns: u64) -> Option<u64> {
        match self.last_source_ns {
            None => self.src_period_ns,
            Some(prev) => depth::period_after(
                self.src_period_ns,
                if at_ns > prev {
                    (at_ns - prev) as u64
                } else {
                    0
                },
                interval_ns,
            ),
        }
    }

    /// Books one capture attempt. Only a source frame feeds the period estimate and clears the
    /// rebuild count.
    pub fn on_frame(&mut self, what: Captured, at_ns: u64, interval_ns: u64)
        requires
            old(self).new_frames < u64::MAX,
            old(self).regenerated < u64::MAX,
            old(self).repeats < u64::MAX,
        ensures
            *final(self) == match what {
                Captured::Source => CaptureBook {
                    new_frames: (old(self).new_frames + 1) as u64,
                    last_source_ns: Some(at_ns),
                    src_period_ns: old(self).period_at(at_ns, interval_ns),
                    rebuilds: 0,
                    ..*old(self)
                },
                Captured::Regenerated => CaptureBook {
                    regenerated: (old(self).regenerated + 1) as u64,
                    ..*old(self)
                },
                Captured::Repeat => CaptureBook {
                    repeats: (old(self).repeats + 1) as u64,
                    ..*old(self)
                },
            },
    {
        match what {
            Captured::Source => {
                self.new_frames = self.new_frames + 1;
                match self.last_source_ns {
                    Some(prev) => {
                        let gap: u64 = at_ns.saturating_sub(prev);
                        self.src_period_ns = depth::observe_period(
                            self.src_period_ns,
                            gap,
                            interval_ns,
                        );
                    },
                    None => {},
                }
                self.last_source_ns = Some(at_ns);
                self.rebuilds = 0;
            },
            Captured::Regenerated => {
                self.regenerated = self.regenerated + 1;
            },
            Captured::Repeat => {
                self.repeats = self.repeats + 1;
            },
        }
    }

    /// Starts a new window of the frame counts.
    pub fn reset_counts(&mut self)
        ensures
            *final(self) == (CaptureBook {
                new_frames: 0,
                regenerated: 0,
                repeats: 0,
                ..*old(self)
            }),
    {
        self.new_frames = 0;
        self.regenerated = 0;
        self.repeats = 0;
    }
}

/// Where the seat pointer was last parked.
#[derive(Clone, Copy, Debug, PartialEq, Eq)]
pub struct ParkState {
    /// The display's node and generation.
    pub display: Option<(u32, u64)>,
    pub attempts: u32,
    pub next_ns: u64,
}

impl ParkState {
    /// Re-arms the schedule for a display that was built anew. Not under gamescope: its nested
    /// seat owns the pointer.
    pub fn rearm(&mut self, gamescope: bool, node: u32, generation: u64, now_ns: u64) -> (armed:
        bool)
        ensures
            armed == (!gamescope && old(self).display != Some((node, generation))),
            *final(self) == if armed {
                ParkState { display: Some((node, generation)), attempts: 0, next_ns: now_ns }
            } else {
                *old(self)
            },
    {
        let same: bool = match self.display {
            Some(d) => d.0 == node && d.1 == generation,
            None => false,
        };
        if gamescope || same {
            return false;
        }
        self.display = Some((node, generation));
        self.attempts = 0;
        self.next_ns = now_ns;
        true
    }
}

/// Every attempt is counted once, as what it was; only a frame of the source is a sign of life: it
/// alone is dated, feeds the estimate and clears the rebuilds.
pub proof fn only_a_source_frame_is_a_sign_of_life(
    b: &mut CaptureBook,
    what: Captured,
    at_ns: u64,
    interval_ns: u64,
)
    requires
        old(b).new_frames < u64::MAX && old(b).regenerated < u64::MAX && old(b).repeats < u64::MAX,
        call_ensures(CaptureBook::on_frame, (b, what, at_ns, interval_ns), ()),
    ensures
        final(b).new_frames + final(b).regenerated + final(b).repeats == old(b).new_frames + old(
            b).regenerated + old(b).repeats + 1,
        what == Captured::Source <==> final(b).new_frames == old(b).new_frames + 1,
        what == Captured::Regenerated <==> final(b).regenerated == old(b).regenerated + 1,
        what == Captured::Repeat <==> final(b).repeats == old(b).repeats + 1,
        what == Captured::Source ==> final(b).last_source_ns == Some(at_ns) && final(b).rebuilds
            == 0,
        what != Captured::Source ==> final(b).last_source_ns == old(b).last_source_ns && final(
            b).src_period_ns == old(b).src_period_ns && final(b).rebuilds == old(b).rebuilds,
        what == Captured::Source && (old(b).last_source_ns matches Some(t) && at_ns >= t && at_ns
            - t <= 8 * interval_ns) && old(b).src_period_ns is None ==> final(b).src_period_ns
            == Some((at_ns - old(b).last_source_ns->0) as u64),
{
}

/// A new window counts from nothing and keeps the estimate.
pub proof fn a_new_window_counts_from_nothing(b: &mut CaptureBook)
    requires
        call_ensures(CaptureBook::reset_counts, (b,), ()),
    ensures
        final(b).new_frames == 0 && final(b).regenerated == 0 && final(b).repeats == 0,
        final(b).src_period_ns == old(b).src_period_ns,
        final(b).last_source_ns == old(b).last_source_ns,
        final(b).rebuilds == old(b).rebuilds,
{
}

/// The pointer is parked anew once per display that was built, and never under gamescope.
pub proof fn a_display_is_parked_once(
    p: &mut ParkState,
    gamescope: bool,
    node: u32,
    generation: u64,
    now_ns: u64,
    armed: bool,
    q: &mut ParkState,
    later_ns: u64,
    again: bool,
)
    requires
        call_ensures(ParkState::rearm, (p, gamescope, node, generation, now_ns), armed),
        *old(q) == *final(p),
        call_ensures(ParkState::rearm, (q, gamescope, node, generation, later_ns), again),
    ensures
        gamescope ==> !armed,
        !gamescope && old(p).display is None ==> armed,
        !gamescope && (old(p).display matches Some(d) && (d.0 != node || d.1 != generation))
            ==> armed,
        armed ==> final(p).attempts == 0 && final(p).next_ns == now_ns,
        !armed ==> *final(p) == *old(p),
        !again,
{
}

} // verus!
