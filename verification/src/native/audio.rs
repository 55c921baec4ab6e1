//! Pacing of the native audio plane: when a frame leaves, what it is cut from, and how it is
//! stamped. Samples, encoders and sockets stay with the caller; this module counts.
//!
//! One frame leaves per wall-clock slot. A source that falls behind is covered with silence once
//! the hole is old enough; a source that runs ahead may send a second frame in one slot.

use crate::native::pcm;
use crate::native::pts_clock::PtsClock;
use vstd::prelude::*;

verus! {

/// The rate of the Opus plane.
pub const SAMPLE_RATE: u32 = 48_000;

/// The frame duration of the Opus plane.
pub const FRAME_MS: u32 = 5;

/// Ceiling on a single pacing wait: the capture channel is finite and has to be serviced.
pub const PACE_MAX_SLEEP_NS: u64 = 10_000_000;

/// How far behind schedule the pacer may fall before the debt is forgiven instead of repaid as a
/// burst.
pub const PACE_REANCHOR_NS: u64 = 100_000_000;

/// Fade at each edge of a capture hole.
pub const EDGE_FADE_US: u64 = 1_000;

/// What a session sends: fixed at the handshake, never switched.
#[derive(Clone, Copy, Debug, PartialEq, Eq, Structural)]
pub struct AudioFormat {
    /// Lossless PCM; otherwise Opus.
    pub pcm: bool,
    pub rate_hz: u32,
    pub channels: u8,
    pub frame_us: u32,
    /// Interleaved samples in one frame.
    pub frame_len: usize,
    /// Wall time of one frame, from its real sample count.
    pub frame_interval_ns: u64,
    /// Interleaved samples of an edge fade.
    pub edge_fade: usize,
    /// Each datagram also carries its predecessor.
    pub redundancy: bool,
}

/// The rate a session runs at: the plane's own for PCM, 48 kHz for Opus.
pub open spec fn session_rate(pcm_plane: bool, plane_rate_hz: u32) -> u32 {
    if pcm_plane {
        plane_rate_hz
    } else {
        SAMPLE_RATE
    }
}

/// The frame label a session runs at: the negotiated one for PCM, at least 1; 5 ms for Opus.
pub open spec fn session_frame_us(pcm_plane: bool, plane_frame_us: u16) -> u32 {
    if !pcm_plane {
        5_000
    } else if plane_frame_us == 0 {
        1
    } else {
        plane_frame_us as u32
    }
}

impl AudioFormat {
    /// The derived fields follow from rate, label and channel count.
    pub open spec fn wf(self) -> bool {
        &&& self.rate_hz > 0
        &&& self.channels > 0
        &&& pcm::sample_rate(self.rate_hz, self.channels) <= usize::MAX
        &&& self.frame_len == pcm::whole_samples(self.rate_hz as int, self.frame_us as int)
            * self.channels
        &&& pcm::duration_of(self.frame_len as int, self.rate_hz, self.channels) <= u64::MAX
        &&& self.frame_interval_ns == at_least_one(
            pcm::duration_of(self.frame_len as int, self.rate_hz, self.channels),
        )
        &&& self.edge_fade == self.rate_hz as int * 1_000 / 1_000_000 * self.channels
        &&& self.pcm ==> !self.redundancy
    }

    /// Resolves the format of a session. Redundancy is defined for Opus only.
    pub fn resolve(
        pcm_plane: bool,
        plane_rate_hz: u32,
        plane_frame_us: u16,
        channels: u8,
        redundancy: bool,
    ) -> (f: AudioFormat)
        requires
            session_rate(pcm_plane, plane_rate_hz) > 0,
            channels > 0,
            pcm::sample_rate(session_rate(pcm_plane, plane_rate_hz), channels) <= usize::MAX,
        ensures
            f.wf(),
            f.pcm == pcm_plane,
            f.rate_hz == session_rate(pcm_plane, plane_rate_hz),
            f.frame_us == session_frame_us(pcm_plane, plane_frame_us),
            f.channels == channels,
            f.redundancy == (redundancy && !pcm_plane),
    {
        let rate_hz: u32 = if pcm_plane {
            plane_rate_hz
        } else {
            SAMPLE_RATE
        };
        let frame_us: u32 = if pcm_plane {
            if plane_frame_us == 0 {
                1
            } else {
                plane_frame_us as u32
            }
        } else {
            FRAME_MS * 1000
        };
        proof {
            lemma_frame_fits(rate_hz, frame_us, channels);
            lemma_fade_fits(rate_hz, channels);
        }
        let frame_len: usize = pcm::samples_per_frame(rate_hz, frame_us, channels);
        let span: u64 = pcm::frame_duration_ns(frame_len, rate_hz, channels);
        let fade: u64 = rate_hz as u64 * EDGE_FADE_US / 1_000_000;
        AudioFormat {
            pcm: pcm_plane,
            rate_hz,
            channels,
            frame_us,
            frame_len,
            frame_interval_ns: if span == 0 {
                1
            } else {
                span
            },
            edge_fade: fade as usize * channels as usize,
            redundancy: redundancy && !pcm_plane,
        }
    }
}

/// `n`, but never zero: a zero interval would spin the pacer.
pub open spec fn at_least_one(n: int) -> int {
    if n <= 0 {
        1
    } else {
        n
    }
}

/// A frame of at most a `u16` of microseconds holds less than a second of samples.
proof fn lemma_frame_fits(rate_hz: u32, frame_us: u32, channels: u8)
    requires
        rate_hz > 0,
        channels > 0,
        frame_us <= 65_535,
        pcm::sample_rate(rate_hz, channels) <= usize::MAX,
    ensures
        0 <= pcm::whole_samples(rate_hz as int, frame_us as int) * channels <= pcm::sample_rate(
            rate_hz,
            channels,
        ),
        0 <= pcm::duration_of(
            pcm::whole_samples(rate_hz as int, frame_us as int) * channels,
            rate_hz,
            channels,
        ) <= 1_000_000_000,
{
    pcm::lemma_rate_bounds(rate_hz, channels);
    let w = pcm::whole_samples(rate_hz as int, frame_us as int);
    assert(0 <= rate_hz * frame_us <= rate_hz * 65_535) by (nonlinear_arith)
        requires
            frame_us <= 65_535,
    ;
    assert(0 <= w <= rate_hz);
    let d = pcm::sample_rate(rate_hz, channels);
    assert(0 <= w * channels <= rate_hz * channels) by (nonlinear_arith)
        requires
            0 <= w <= rate_hz,
            channels > 0,
    ;
    let n = w * channels;
    vstd::arithmetic::div_mod::lemma_div_pos_is_pos(n * 1_000_000_000, d);
    assert(n * 1_000_000_000 <= 1_000_000_000 * d) by (nonlinear_arith)
        requires
            n <= d,
    ;
    vstd::arithmetic::div_mod::lemma_div_is_ordered(n * 1_000_000_000, 1_000_000_000 * d, d);
    vstd::arithmetic::div_mod::lemma_div_multiples_vanish(1_000_000_000, d);
    assert(1_000_000_000 * d == d * 1_000_000_000);
}

proof fn lemma_fade_fits(rate_hz: u32, channels: u8)
    requires
        pcm::sample_rate(rate_hz, channels) <= usize::MAX,
    ensures
        0 <= rate_hz as int * 1_000 / 1_000_000 * channels <= usize::MAX,
        rate_hz as int * 1_000 / 1_000_000 <= rate_hz,
{
    let k = rate_hz as int * 1_000 / 1_000_000;
    assert(0 <= k * channels <= rate_hz * channels) by (nonlinear_arith)
        requires
            0 <= k <= rate_hz,
    ;
}

/// How a capture rate other than the promised one is met.
#[derive(Clone, Copy, Debug, PartialEq, Eq, Structural)]
pub enum RateVerdict {
    Match,
    /// Opus is 48 kHz by definition and the capturer resamples: carry on.
    Tolerate,
    /// The client's device is open at the promised rate and the plane cannot switch.
    EndPlane,
}

/// Judges the rate the capture path reports now.
pub fn rate_verdict(live_rate_hz: u32, f: &AudioFormat) -> (v: RateVerdict)
    ensures
        v == RateVerdict::Match <==> live_rate_hz == f.rate_hz,
        v == RateVerdict::EndPlane <==> live_rate_hz != f.rate_hz && f.pcm,
{
    if live_rate_hz == f.rate_hz {
        RateVerdict::Match
    } else if f.pcm {
        RateVerdict::EndPlane
    } else {
        RateVerdict::Tolerate
    }
}

/// Whether a parked capturer may be adopted: never by a session with its own sink, and only when
/// both channel count and rate match.
pub fn adopt_parked(isolated: bool, channels: u32, rate_hz: u32, f: &AudioFormat) -> (ok: bool)
    ensures
        ok == (!isolated && channels == f.channels && rate_hz == f.rate_hz),
{
    !isolated && channels == f.channels as u32 && rate_hz == f.rate_hz
}

/// Whether a dead capture may be reopened now: at once the first time, then after `backoff_ns`.
pub fn reopen_due(last_failed_ns: Option<u64>, now_ns: u64, backoff_ns: u64) -> (due: bool)
    ensures
        due == match last_failed_ns {
            Some(t) => now_ns - t >= backoff_ns || backoff_ns == 0,
            None => true,
        },
{
    match last_failed_ns {
        Some(t) => now_ns.saturating_sub(t) >= backoff_ns,
        None => true,
    }
}

/// What to wait for next.
#[derive(Clone, Copy, Debug, PartialEq, Eq, Structural)]
pub enum Wait {
    /// The next chunk, however long it takes.
    Chunk,
    /// The next chunk or this many nanoseconds, whichever is first.
    Within(u64),
}

/// What a chunk does to the buffers the caller holds.
#[derive(Clone, Copy, Debug, PartialEq, Eq, Structural)]
pub struct ChunkEffect {
    /// Drop the partial frame and the redundancy predecessor: both are from before a silence.
    pub restart: bool,
    /// How long the chunk lasts.
    pub quantum_ns: u64,
}

/// Where the schedule stands.
#[derive(Clone, Copy, Debug, PartialEq, Eq, Structural)]
pub enum Slot {
    /// The next slot is still ahead.
    Early,
    /// A slot is owed, `late_ns` after it was due; `reanchored` when the debt was forgiven.
    Due { late_ns: u64, reanchored: bool },
}

/// What the frame of a due slot can be made of.
#[derive(Clone, Copy, Debug, PartialEq, Eq, Structural)]
pub enum Supply {
    /// A complete frame is waiting.
    Real,
    /// Nothing has been sent yet, so nothing may be synthesized.
    Nothing,
    /// A hole this old; the infill policy decides.
    Hole(u64),
}

/// One frame to build and stamp. The caller takes `take` samples from its backlog, then
/// `borrow` samples of the last real frame, fades the last `fade_tail` of what it has, and pads
/// with silence to `len`.
#[derive(Clone, Copy, Debug, PartialEq, Eq, Structural)]
pub struct FramePlan {
    pub infilled: bool,
    pub take: usize,
    pub borrow: usize,
    pub fade_tail: usize,
    /// Fade this many samples in from silence.
    pub fade_head: usize,
    pub len: usize,
    pub pts_ns: u64,
    /// The operator muted the session: build nothing, send nothing.
    pub muted: bool,
}

/// What became of a datagram.
#[derive(Clone, Copy, Debug, PartialEq, Eq, Structural)]
pub enum Departure {
    Sent,
    /// One oversized frame, not the plane.
    TooLarge,
    /// Datagrams are gone for the rest of the connection.
    Unavailable,
    /// The encoder failed; no datagram was built.
    NotEncoded,
}

/// The send side of one session's audio plane.
#[derive(Clone, Copy, Debug)]
pub struct AudioPacer {
    pub format: AudioFormat,
    /// Samples waiting to be sent.
    pub backlog: usize,
    /// The largest chunk seen: the capture quantum.
    pub max_chunk: usize,
    pub last_chunk_ns: u64,
    /// When the next slot opens; unset until the first frame and after a forgiven debt.
    pub due_ns: Option<u64>,
    /// A frame has left: there is a continuity to protect.
    pub sent_any: bool,
    /// The next real frame starts mid-waveform.
    pub resume_fade: bool,
    /// In this pass, the last frame was granted a second one behind it.
    pub bonus_taken: bool,
    pub seq: u32,
    /// The last Opus frame, still valid as a predecessor.
    pub has_prev: bool,
    /// Samples of the last real frame.
    pub last_real: usize,
    pub last_departure_ns: Option<u64>,
    pub oversized: u64,
}

/// The stamp of the newest backlog: `arrival_ns` less the time the whole frames waiting last.
pub open spec fn anchor_of(arrival_ns: u64, backlog: int, f: AudioFormat) -> int {
    let waiting = backlog / f.channels as int * 1_000_000_000 / f.rate_hz as int;
    if waiting > arrival_ns {
        0
    } else {
        arrival_ns - waiting
    }
}

/// `a - b`, or zero.
pub open spec fn lead(a: int, b: int) -> int {
    if a > b {
        a - b
    } else {
        0
    }
}

pub open spec fn min_of(a: int, b: int) -> int {
    if a < b {
        a
    } else {
        b
    }
}

pub open spec fn max_of(a: int, b: int) -> int {
    if a > b {
        a
    } else {
        b
    }
}

impl AudioPacer {
    pub open spec fn wf(self) -> bool {
        &&& self.format.wf()
        &&& self.last_real <= self.format.frame_len
    }

    pub fn new(format: AudioFormat, now_ns: u64) -> (p: AudioPacer)
        requires
            format.wf(),
        ensures
            p.wf(),
            p == (AudioPacer {
                format,
                backlog: 0,
                max_chunk: 0,
                last_chunk_ns: now_ns,
                due_ns: None,
                sent_any: false,
                resume_fade: false,
                bonus_taken: false,
                seq: 0,
                has_prev: false,
                last_real: 0,
                last_departure_ns: None,
                oversized: 0,
            }),
    {
        AudioPacer {
            format,
            backlog: 0,
            max_chunk: 0,
            last_chunk_ns: now_ns,
            due_ns: None,
            sent_any: false,
            resume_fade: false,
            bonus_taken: false,
            seq: 0,
            has_prev: false,
            last_real: 0,
            last_departure_ns: None,
            oversized: 0,
        }
    }

    /// When a frame could next leave, counted from `now_ns`: at its slot when one is complete; a
    /// slot without audio cannot fire before the hole is `infill_after_ns` old.
    pub open spec fn ready_in(self, now_ns: u64, infill_after_ns: u64) -> int {
        match self.due_ns {
            Some(due) => if self.backlog >= self.format.frame_len {
                lead(due as int, now_ns as int)
            } else {
                lead(max_of(due as int, self.last_chunk_ns + infill_after_ns), now_ns as int)
            },
            None => self.format.frame_interval_ns as int,
        }
    }

    /// What to wait for: with the infill budget spent or nothing sent yet, a chunk; otherwise a
    /// chunk or the next owed slot, never longer than [`PACE_MAX_SLEEP_NS`].
    pub fn wait(&self, now_ns: u64, infill_exhausted: bool, infill_after_ns: u64) -> (w: Wait)
        ensures
            w == if infill_exhausted || !self.sent_any {
                Wait::Chunk
            } else {
                Wait::Within(
                    min_of(self.ready_in(now_ns, infill_after_ns), PACE_MAX_SLEEP_NS as int) as u64,
                )
            },
    {
        if infill_exhausted || !self.sent_any {
            return Wait::Chunk;
        }
        let ready: u128 = match self.due_ns {
            Some(due) => {
                let mut at: u128 = due as u128;
                if self.backlog < self.format.frame_len {
                    let covered: u128 = self.last_chunk_ns as u128 + infill_after_ns as u128;
                    if covered > at {
                        at = covered;
                    }
                }
                if at > now_ns as u128 {
                    at - now_ns as u128
                } else {
                    0
                }
            },
            None => self.format.frame_interval_ns as u128,
        };
        if ready < PACE_MAX_SLEEP_NS as u128 {
            Wait::Within(ready as u64)
        } else {
            Wait::Within(PACE_MAX_SLEEP_NS)
        }
    }

    /// Begins a pass over the owed slots, once per wait: what the last pass granted is forgotten.
    pub fn begin_pass(&mut self)
        ensures
            *final(self) == (AudioPacer { bonus_taken: false, ..*old(self) }),
    {
        self.bonus_taken = false;
    }

    /// A reopened capture: the partial frame straddles the gap and the predecessor is from
    /// before it.
    pub fn reopened(&mut self)
        ensures
            *final(self) == (AudioPacer { backlog: 0, has_prev: false, ..*old(self) }),
    {
        self.backlog = 0;
        self.has_prev = false;
    }

    /// Books a captured chunk of `len` samples and ties the wire clock to its arrival. An empty
    /// chunk is a quiet sink and changes nothing. `after_silence` is the infill policy's word
    /// that the wire fell silent across the hole this chunk ends.
    pub fn on_chunk(
        &mut self,
        clock: &mut PtsClock,
        len: usize,
        after_silence: bool,
        now_ns: u64,
        arrival_ns: u64,
    ) -> (e: ChunkEffect)
        requires
            old(self).wf(),
            old(clock).wf(),
            old(clock).pts() <= u64::MAX,
            old(self).backlog + len <= usize::MAX,
            pcm::duration_of(len as int, old(self).format.rate_hz, old(self).format.channels)
                <= u64::MAX,
        ensures
            final(self).wf(),
            final(clock).wf(),
            final(clock).same_format(*old(clock)),
            e.restart == (len > 0 && after_silence),
            len == 0 ==> *final(self) == *old(self) && *final(clock) == *old(clock)
                && e.quantum_ns == 0,
            len > 0 ==> {
                let backlog = if after_silence {
                    len as int
                } else {
                    old(self).backlog + len
                };
                let anchor = anchor_of(arrival_ns, backlog, old(self).format);
                &&& *final(self) == (AudioPacer {
                    backlog: backlog as usize,
                    has_prev: old(self).has_prev && !after_silence,
                    last_chunk_ns: now_ns,
                    max_chunk: max_of(old(self).max_chunk as int, len as int) as usize,
                    ..*old(self)
                })
                &&& e.quantum_ns == pcm::duration_of(
                    len as int,
                    old(self).format.rate_hz,
                    old(self).format.channels,
                )
                &&& final(clock).pts() == max_of(anchor, old(clock).pts())
                &&& anchor <= old(clock).pts() ==> *final(clock) == *old(clock)
                &&& anchor > old(clock).pts() ==> final(clock).samples == 0 && forall|more: int|
                    #[trigger] final(clock).after(more) == anchor + pcm::duration_of(
                        more,
                        old(clock).rate_hz,
                        old(clock).channels,
                    )
            },
    {
        if len == 0 {
            return ChunkEffect { restart: false, quantum_ns: 0 };
        }
        if after_silence {
            self.backlog = 0;
            self.has_prev = false;
        }
        self.last_chunk_ns = now_ns;
        self.backlog = self.backlog + len;
        if len > self.max_chunk {
            self.max_chunk = len;
        }
        let f: AudioFormat = self.format;
        let quantum_ns: u64 = pcm::frame_duration_ns(len, f.rate_hz, f.channels);
        let queued: u128 = (self.backlog / f.channels as usize) as u128;
        let waiting: u128 = queued * 1_000_000_000 / f.rate_hz as u128;
        let anchor: u64 = if waiting > arrival_ns as u128 {
            0
        } else {
            arrival_ns - waiting as u64
        };
        clock.reanchor(anchor);
        ChunkEffect { restart: after_silence, quantum_ns }
    }

    /// Whether a slot is owed at `now_ns`. A debt past [`PACE_REANCHOR_NS`] is forgiven: the
    /// schedule restarts and the frame does not count as late.
    pub fn slot(&mut self, now_ns: u64) -> (s: Slot)
        ensures
            s == match old(self).due_ns {
                None => Slot::Due { late_ns: 0, reanchored: false },
                Some(due) => if due > now_ns {
                    Slot::Early
                } else if now_ns - due > PACE_REANCHOR_NS {
                    Slot::Due { late_ns: 0, reanchored: true }
                } else {
                    Slot::Due { late_ns: (now_ns - due) as u64, reanchored: false }
                },
            },
            *final(self) == (AudioPacer {
                due_ns: if s == (Slot::Due { late_ns: 0, reanchored: true }) {
                    None
                } else {
                    old(self).due_ns
                },
                ..*old(self)
            }),
    {
        match self.due_ns {
            None => Slot::Due { late_ns: 0, reanchored: false },
            Some(due) => {
                if due > now_ns {
                    Slot::Early
                } else if now_ns - due > PACE_REANCHOR_NS {
                    self.due_ns = None;
                    Slot::Due { late_ns: 0, reanchored: true }
                } else {
                    Slot::Due { late_ns: now_ns - due, reanchored: false }
                }
            },
        }
    }

    /// What the frame of a slot owed since `late_ns` can be made of. A hole is as old as the
    /// longer of the time since the last chunk and the schedule's lag.
    pub fn supply(&self, now_ns: u64, late_ns: u64) -> (s: Supply)
        ensures
            s == if self.backlog >= self.format.frame_len {
                Supply::Real
            } else if !self.sent_any {
                Supply::Nothing
            } else {
                Supply::Hole(
                    max_of(lead(now_ns as int, self.last_chunk_ns as int), late_ns as int) as u64,
                )
            },
    {
        if self.backlog >= self.format.frame_len {
            Supply::Real
        } else if !self.sent_any {
            Supply::Nothing
        } else {
            let since: u64 = now_ns.saturating_sub(self.last_chunk_ns);
            if since > late_ns {
                Supply::Hole(since)
            } else {
                Supply::Hole(late_ns)
            }
        }
    }

    /// A second frame is due in the same slot: more than one capture quantum and one frame are
    /// left, and the last frame was not already such a second.
    pub open spec fn grants_bonus(self) -> bool {
        &&& !self.bonus_taken
        &&& self.backlog - self.format.frame_len >= self.max_chunk + self.format.frame_len
    }

    /// The slot after this one.
    pub open spec fn next_due(self, now_ns: u64, bonus: bool) -> int {
        match self.due_ns {
            Some(due) if bonus => due as int,
            Some(due) => due + self.format.frame_interval_ns,
            None => now_ns + self.format.frame_interval_ns,
        }
    }

    /// Releases a complete frame from the backlog.
    pub fn release(&mut self, clock: &mut PtsClock, now_ns: u64, muted: bool) -> (p: FramePlan)
        requires
            old(self).wf(),
            old(self).backlog >= old(self).format.frame_len,
            old(self).next_due(now_ns, false) <= u64::MAX,
            old(clock).wf(),
            old(clock).samples + old(self).format.frame_len <= usize::MAX,
            old(clock).after(old(self).format.frame_len as int) <= u64::MAX,
        ensures
            final(self).wf(),
            final(clock).wf(),
            final(clock).same_format(*old(clock)),
            forall|more: int| #[trigger]
                final(clock).after(more) == old(clock).after(
                    old(self).format.frame_len + more,
                ),
            p == (FramePlan {
                infilled: false,
                take: old(self).format.frame_len,
                borrow: 0,
                fade_tail: 0,
                fade_head: if old(self).resume_fade {
                    old(self).format.edge_fade
                } else {
                    0
                },
                len: old(self).format.frame_len,
                pts_ns: old(clock).pts() as u64,
                muted,
            }),
            *final(self) == (AudioPacer {
                backlog: (old(self).backlog - old(self).format.frame_len) as usize,
                due_ns: Some(old(self).next_due(now_ns, old(self).grants_bonus()) as u64),
                bonus_taken: old(self).grants_bonus(),
                resume_fade: muted,
                last_real: old(self).format.frame_len,
                has_prev: old(self).has_prev && !muted,
                ..*old(self)
            }),
    {
        let f: AudioFormat = self.format;
        self.backlog = self.backlog - f.frame_len;
        let bonus: bool = !self.bonus_taken && self.backlog >= f.frame_len && self.backlog
            - f.frame_len >= self.max_chunk;
        let due: u64 = match self.due_ns {
            Some(due) => if bonus {
                due
            } else {
                due + f.frame_interval_ns
            },
            None => now_ns + f.frame_interval_ns,
        };
        self.due_ns = Some(due);
        self.bonus_taken = bonus;
        let fade_head: usize = if self.resume_fade {
            f.edge_fade
        } else {
            0
        };
        self.resume_fade = muted;
        self.last_real = f.frame_len;
        proof {
            crate::native::pts_clock::clock_is_monotone(*clock, 0, f.frame_len as int);
        }
        let pts_ns: u64 = clock.pts_ns();
        clock.advance(f.frame_len);
        if muted {
            self.has_prev = false;
        }
        FramePlan {
            infilled: false,
            take: f.frame_len,
            borrow: 0,
            fade_tail: 0,
            fade_head,
            len: f.frame_len,
            pts_ns,
            muted,
        }
    }

    /// Covers a hole with silence: the partial frame goes out padded rather than waiting for
    /// samples from after the hole. The first frame of a hole fades out what it has, or the head
    /// of the last real frame when the partial is empty.
    pub fn infill(
        &mut self,
        clock: &mut PtsClock,
        now_ns: u64,
        opens_hole: bool,
        muted: bool,
    ) -> (p: FramePlan)
        requires
            old(self).wf(),
            old(self).sent_any,
            old(self).backlog < old(self).format.frame_len,
            old(self).next_due(now_ns, false) <= u64::MAX,
            old(clock).wf(),
            old(clock).samples + old(self).format.frame_len <= usize::MAX,
            old(clock).after(old(self).format.frame_len as int) <= u64::MAX,
        ensures
            final(self).wf(),
            final(clock).wf(),
            final(clock).same_format(*old(clock)),
            forall|more: int| #[trigger]
                final(clock).after(more) == old(clock).after(
                    old(self).format.frame_len + more,
                ),
            p == ({
                let f = old(self).format;
                let borrow = if opens_hole && old(self).backlog == 0 {
                    min_of(f.edge_fade as int, old(self).last_real as int)
                } else {
                    0
                };
                FramePlan {
                    infilled: true,
                    take: old(self).backlog,
                    borrow: borrow as usize,
                    fade_tail: if opens_hole {
                        min_of(old(self).backlog + borrow, f.edge_fade as int) as usize
                    } else {
                        0
                    },
                    fade_head: 0,
                    len: f.frame_len,
                    pts_ns: old(clock).pts() as u64,
                    muted,
                }
            }),
            p.take + p.borrow <= p.len,
            *final(self) == (AudioPacer {
                backlog: 0,
                due_ns: Some(old(self).next_due(now_ns, false) as u64),
                bonus_taken: false,
                resume_fade: true,
                has_prev: old(self).has_prev && !muted,
                ..*old(self)
            }),
    {
        let f: AudioFormat = self.format;
        let take: usize = self.backlog;
        let borrow: usize = if opens_hole && take == 0 {
            if f.edge_fade < self.last_real {
                f.edge_fade
            } else {
                self.last_real
            }
        } else {
            0
        };
        let have: usize = take + borrow;
        let fade_tail: usize = if !opens_hole {
            0
        } else if have < f.edge_fade {
            have
        } else {
            f.edge_fade
        };
        self.backlog = 0;
        let due: u64 = match self.due_ns {
            Some(due) => due + f.frame_interval_ns,
            None => now_ns + f.frame_interval_ns,
        };
        self.due_ns = Some(due);
        self.bonus_taken = false;
        self.resume_fade = true;
        proof {
            crate::native::pts_clock::clock_is_monotone(*clock, 0, f.frame_len as int);
        }
        let pts_ns: u64 = clock.pts_ns();
        clock.advance(f.frame_len);
        if muted {
            self.has_prev = false;
        }
        FramePlan {
            infilled: true,
            take,
            borrow,
            fade_tail,
            fade_head: 0,
            len: f.frame_len,
            pts_ns,
            muted,
        }
    }

    /// Books what became of a frame's datagram; `false` ends the plane. A sequence number is
    /// spent on a frame that left and on one the path refused as too large, so the client sees a
    /// gap and conceals it. A frame that never left is no predecessor.
    pub fn departed(&mut self, outcome: Departure, now_ns: u64) -> (goes_on: bool)
        requires
            old(self).oversized < u64::MAX,
        ensures
            goes_on == (outcome != Departure::Unavailable),
            *final(self) == match outcome {
                Departure::Sent => AudioPacer {
                    seq: old(self).seq.wrapping_add(1),
                    has_prev: old(self).has_prev || old(self).format.redundancy,
                    last_departure_ns: Some(now_ns),
                    sent_any: true,
                    ..*old(self)
                },
                Departure::TooLarge => AudioPacer {
                    seq: old(self).seq.wrapping_add(1),
                    has_prev: false,
                    oversized: (old(self).oversized + 1) as u64,
                    ..*old(self)
                },
                Departure::Unavailable => *old(self),
                Departure::NotEncoded => *old(self),
            },
    {
        match outcome {
            Departure::Sent => {
                self.seq = self.seq.wrapping_add(1);
                self.has_prev = self.has_prev || self.format.redundancy;
                self.last_departure_ns = Some(now_ns);
                self.sent_any = true;
                true
            },
            Departure::TooLarge => {
                self.seq = self.seq.wrapping_add(1);
                self.has_prev = false;
                self.oversized = self.oversized + 1;
                true
            },
            Departure::Unavailable => false,
            Departure::NotEncoded => true,
        }
    }
}

/// No slot carries more than two frames. When a second frame is granted in an open slot, the slot
/// stays owed and the second frame is already waiting, so the pass goes on to it; and that second
/// frame is charged to a new slot, whatever the backlog.
pub proof fn at_most_two_frames_per_slot(p: AudioPacer, first: AudioPacer, now_ns: u64, later_ns: u64)
    requires
        p.format.wf(),
        p.grants_bonus(),
        p.due_ns is Some,
        first.format == p.format,
        first.backlog == p.backlog - p.format.frame_len,
        first.due_ns == Some(p.next_due(now_ns, p.grants_bonus()) as u64),
        first.bonus_taken == p.grants_bonus(),
    ensures
        first.due_ns == p.due_ns,
        first.backlog >= first.format.frame_len,
        !first.grants_bonus(),
        first.next_due(later_ns, first.grants_bonus()) > p.due_ns->0,
{
}

/// The anchor a chunk gives the clock is never after the chunk's arrival.
pub proof fn anchor_is_never_after_arrival(arrival_ns: u64, backlog: int, f: AudioFormat)
    requires
        f.wf(),
        backlog >= 0,
    ensures
        0 <= anchor_of(arrival_ns, backlog, f) <= arrival_ns,
{
    let queued = backlog / f.channels as int;
    assert(queued >= 0) by (nonlinear_arith)
        requires
            backlog >= 0,
            queued == backlog / f.channels as int,
            f.channels > 0,
    ;
    assert(queued * 1_000_000_000 / f.rate_hz as int >= 0) by (nonlinear_arith)
        requires
            queued >= 0,
            f.rate_hz > 0,
    ;
}

/// A session's format follows from what was agreed: PCM runs at the plane's rate and label without
/// redundancy, Opus at 48 kHz in frames of 5 ms. A frame holds whole samples of every channel, as
/// many as its label has time for, and lasts as long as they do.
pub proof fn a_format_is_what_was_agreed(
    pcm_plane: bool,
    rate_hz: u32,
    frame_us: u16,
    channels: u8,
    redundancy: bool,
    f: AudioFormat,
)
    requires
        call_ensures(AudioFormat::resolve, (pcm_plane, rate_hz, frame_us, channels, redundancy), f),
        channels > 0,
    ensures
        f.pcm == pcm_plane && f.channels == channels,
        pcm_plane ==> f.rate_hz == rate_hz && f.frame_us >= 1 && (frame_us > 0 ==> f.frame_us
            == frame_us) && !f.redundancy,
        !pcm_plane ==> f.rate_hz == 48_000 && f.frame_us == 5_000 && f.redundancy == redundancy
            && f.frame_len == 240 * channels && f.edge_fade == 48 * channels,
        f.frame_interval_ns >= 1,
        f.wf(),
{
    if !pcm_plane {
        assert(48_000int * 5_000 / 1_000_000 == 240);
        assert(48_000int * 1_000 / 1_000_000 == 48);
    }
}

/// A capture at another rate ends a lossless plane and is borne by the other; the promised rate is
/// always a match.
pub proof fn only_a_lossless_plane_ends_on_a_rate(live: u32, f: &AudioFormat, v: RateVerdict)
    requires
        call_ensures(rate_verdict, (live, f), v),
    ensures
        v == RateVerdict::Match <==> live == f.rate_hz,
        v == RateVerdict::EndPlane <==> live != f.rate_hz && f.pcm,
        v == RateVerdict::Tolerate <==> live != f.rate_hz && !f.pcm,
{
}

/// A parked capturer is taken over only by a session that shares the sink and hears the same
/// channels at the same rate.
pub proof fn a_parked_capturer_fits(
    isolated: bool,
    channels: u32,
    rate_hz: u32,
    f: &AudioFormat,
    ok: bool,
)
    requires
        call_ensures(adopt_parked, (isolated, channels, rate_hz, f), ok),
    ensures
        ok ==> !isolated && channels == f.channels && rate_hz == f.rate_hz,
        !isolated && channels == f.channels && rate_hz == f.rate_hz ==> ok,
{
}

/// A dead capture is reopened at once the first time and after the wait from then on.
pub proof fn a_dead_capture_is_tried_again(
    last: Option<u64>,
    now_ns: u64,
    backoff_ns: u64,
    due: bool,
)
    requires
        call_ensures(reopen_due, (last, now_ns, backoff_ns), due),
    ensures
        last is None ==> due,
        last matches Some(t) ==> (now_ns >= t + backoff_ns ==> due) && (now_ns < t + backoff_ns
            && now_ns >= t ==> !due),
{
}

/// A new plane has sent nothing and owes no slot.
pub proof fn a_new_plane_has_sent_nothing(f: AudioFormat, now_ns: u64, p: AudioPacer)
    requires
        f.wf(),
        call_ensures(AudioPacer::new, (f, now_ns), p),
    ensures
        p.format == f,
        p.backlog == 0 && p.seq == 0 && p.oversized == 0,
        !p.sent_any && !p.has_prev && !p.bonus_taken && !p.resume_fade,
        p.due_ns is None && p.last_departure_ns is None,
        p.last_chunk_ns == now_ns,
{
}

/// A wait never outlasts ten milliseconds nor the slot of a frame that is ready; where nothing may
/// be made up, only a chunk ends it.
pub proof fn a_wait_ends_in_time(
    p: &AudioPacer,
    now_ns: u64,
    exhausted: bool,
    infill_after_ns: u64,
    w: Wait,
)
    requires
        call_ensures(AudioPacer::wait, (p, now_ns, exhausted, infill_after_ns), w),
    ensures
        w == Wait::Chunk <==> exhausted || !p.sent_any,
        w matches Wait::Within(ns) ==> {
            &&& ns <= 10_000_000
            &&& p.due_ns is None ==> ns <= p.format.frame_interval_ns
            &&& p.due_ns matches Some(due) ==> {
                &&& p.backlog >= p.format.frame_len && due >= now_ns ==> now_ns + ns <= due
                &&& p.backlog >= p.format.frame_len && due <= now_ns ==> ns == 0
                &&& due <= now_ns + ns || ns == 10_000_000
                &&& p.backlog < p.format.frame_len ==> now_ns + ns >= p.last_chunk_ns
                    + infill_after_ns || ns == 10_000_000
            }
        },
{
}

/// A pass forgets what the last one granted; a reopened capture drops what is from before the gap.
pub proof fn a_gap_is_not_bridged(a: &mut AudioPacer, b: &mut AudioPacer)
    requires
        call_ensures(AudioPacer::begin_pass, (a,), ()),
        call_ensures(AudioPacer::reopened, (b,), ()),
    ensures
        !final(a).bonus_taken,
        final(a).backlog == old(a).backlog && final(a).due_ns == old(a).due_ns && final(a).seq
            == old(a).seq,
        final(b).backlog == 0 && !final(b).has_prev,
        final(b).seq == old(b).seq && final(b).due_ns == old(b).due_ns && final(b).sent_any
            == old(b).sent_any,
{
}

/// A chunk joins the backlog, or replaces it after a silence; the wire clock then stands at or
/// after the chunk's arrival less what waits, and never goes back. An empty chunk is nothing.
pub proof fn a_chunk_joins_the_backlog(
    p: &mut AudioPacer,
    clock: &mut PtsClock,
    len: usize,
    after_silence: bool,
    now_ns: u64,
    arrival_ns: u64,
    e: ChunkEffect,
)
    requires
        old(p).wf() && old(clock).wf(),
        old(p).backlog + len <= usize::MAX,
        call_ensures(
            AudioPacer::on_chunk,
            (p, clock, len, after_silence, now_ns, arrival_ns),
            e,
        ),
    ensures
        len == 0 ==> *final(p) == *old(p) && *final(clock) == *old(clock) && !e.restart,
        len > 0 && !after_silence ==> final(p).backlog == old(p).backlog + len && final(p).has_prev
            == old(p).has_prev && !e.restart,
        len > 0 && after_silence ==> final(p).backlog == len && !final(p).has_prev && e.restart,
        len > 0 ==> final(p).last_chunk_ns == now_ns && final(p).max_chunk >= len
            && final(p).max_chunk >= old(p).max_chunk && (final(p).max_chunk == len
            || final(p).max_chunk == old(p).max_chunk),
        final(clock).pts() >= old(clock).pts(),
        len > 0 ==> final(clock).pts() >= arrival_ns - final(p).backlog as int / old(
            p).format.channels as int * 1_000_000_000 / old(p).format.rate_hz as int,
        final(clock).pts() == old(clock).pts() || final(clock).pts() <= arrival_ns,
        final(p).seq == old(p).seq && final(p).due_ns == old(p).due_ns,
{
    if len > 0 {
        anchor_is_never_after_arrival(arrival_ns, final(p).backlog as int, old(p).format);
    }
}

/// A slot is owed from its time on; it is late by what has passed since, unless that is over a
/// tenth of a second: then the debt is forgiven and the schedule starts over.
pub proof fn a_slot_is_owed_from_its_time(p: &mut AudioPacer, now_ns: u64, s: Slot)
    requires
        call_ensures(AudioPacer::slot, (p, now_ns), s),
    ensures
        s == Slot::Early <==> (old(p).due_ns matches Some(due) && due > now_ns),
        s matches Slot::Due { late_ns, reanchored } ==> {
            &&& reanchored <==> (old(p).due_ns matches Some(due) && now_ns - due > 100_000_000)
            &&& late_ns <= 100_000_000
            &&& !reanchored ==> (old(p).due_ns matches Some(due) ==> late_ns == now_ns - due)
            &&& reanchored || old(p).due_ns is None ==> late_ns == 0
            &&& reanchored ==> final(p).due_ns is None
            &&& !reanchored ==> final(p).due_ns == old(p).due_ns
        },
        final(p).backlog == old(p).backlog && final(p).seq == old(p).seq,
{
}

/// A slot is filled with what is there: a whole frame where one waits, nothing before the first
/// frame, and else a hole as old as the silence or the delay, whichever is older.
pub proof fn a_slot_is_filled_with_what_is_there(
    p: &AudioPacer,
    now_ns: u64,
    late_ns: u64,
    s: Supply,
)
    requires
        call_ensures(AudioPacer::supply, (p, now_ns, late_ns), s),
    ensures
        s == Supply::Real <==> p.backlog >= p.format.frame_len,
        s == Supply::Nothing <==> p.backlog < p.format.frame_len && !p.sent_any,
        s matches Supply::Hole(age) ==> age >= late_ns && age >= now_ns - p.last_chunk_ns && (age
            == late_ns || age == now_ns - p.last_chunk_ns),
{
}

/// A released frame is one whole frame of the backlog, stamped with the wire clock, which moves on
/// by it. The next slot is an interval on; only a backlog of more than another frame and a capture
/// quantum earns a second frame in the same slot, and never twice in a row.
pub proof fn a_released_frame_is_a_whole_one(
    p: &mut AudioPacer,
    clock: &mut PtsClock,
    now_ns: u64,
    muted: bool,
    f: FramePlan,
)
    requires
        old(p).wf(),
        old(p).backlog >= old(p).format.frame_len,
        old(p).next_due(now_ns, false) <= u64::MAX,
        old(clock).wf(),
        old(clock).after(old(p).format.frame_len as int) <= u64::MAX,
        call_ensures(AudioPacer::release, (p, clock, now_ns, muted), f),
    ensures
        !f.infilled && f.take == f.len && f.len == old(p).format.frame_len,
        f.borrow == 0 && f.fade_tail == 0,
        f.fade_head > 0 ==> old(p).resume_fade,
        old(p).resume_fade ==> f.fade_head == old(p).format.edge_fade,
        f.pts_ns == old(clock).pts(),
        f.muted == muted,
        final(p).backlog + f.take == old(p).backlog,
        final(clock).pts() == old(clock).after(f.len as int),
        old(p).due_ns is None ==> final(p).due_ns == Some(
            (now_ns + old(p).format.frame_interval_ns) as u64,
        ),
        old(p).due_ns matches Some(due) ==> (final(p).due_ns == Some(due) && !old(p).bonus_taken
            && final(p).backlog >= old(p).max_chunk + old(p).format.frame_len) || final(p).due_ns
            == Some((due + old(p).format.frame_interval_ns) as u64),
        old(p).due_ns is Some && !old(p).bonus_taken && final(p).backlog >= old(p).max_chunk + old(
            p).format.frame_len ==> final(p).due_ns == old(p).due_ns,
        final(p).bonus_taken ==> !old(p).bonus_taken,
        final(p).resume_fade == muted,
        muted ==> !final(p).has_prev,
        final(p).seq == old(p).seq,
{
    clock_is_monotone_here(*old(clock), old(p).format.frame_len as int);
}

proof fn clock_is_monotone_here(clock: PtsClock, more: int)
    requires
        clock.wf(),
        more >= 0,
    ensures
        0 <= clock.pts() <= clock.after(more),
        clock.after(more + 0) == clock.after(more),
{
    crate::native::pts_clock::clock_is_monotone(clock, 0, more);
    let d = pcm::sample_rate(clock.rate_hz, clock.channels);
    pcm::lemma_rate_bounds(clock.rate_hz, clock.channels);
    vstd::arithmetic::div_mod::lemma_div_pos_is_pos(clock.samples * 1_000_000_000, d);
}

/// A hole is covered by a whole frame of what is left and silence: all of the partial frame goes
/// out, the wire clock and the schedule move on as for any frame, and what comes next fades in.
/// Only the frame that opens the hole fades out, from the last real frame where nothing is left.
pub proof fn a_hole_is_covered_by_a_whole_frame(
    p: &mut AudioPacer,
    clock: &mut PtsClock,
    now_ns: u64,
    opens: bool,
    muted: bool,
    f: FramePlan,
)
    requires
        old(p).wf(),
        old(p).sent_any,
        old(p).backlog < old(p).format.frame_len,
        old(p).next_due(now_ns, false) <= u64::MAX,
        old(clock).wf(),
        old(clock).after(old(p).format.frame_len as int) <= u64::MAX,
        call_ensures(AudioPacer::infill, (p, clock, now_ns, opens, muted), f),
    ensures
        f.infilled && f.take == old(p).backlog && final(p).backlog == 0,
        f.len == old(p).format.frame_len && f.take + f.borrow <= f.len,
        f.borrow > 0 ==> opens && f.take == 0 && f.borrow <= old(p).last_real,
        f.fade_tail > 0 ==> opens,
        f.fade_tail <= f.take + f.borrow && f.fade_tail <= old(p).format.edge_fade,
        opens && f.take > 0 ==> f.fade_tail == f.take || f.fade_tail == old(p).format.edge_fade,
        f.fade_head == 0 && f.muted == muted,
        f.pts_ns == old(clock).pts(),
        final(clock).pts() == old(clock).after(f.len as int),
        final(p).due_ns == Some(
            ((match old(p).due_ns {
                Some(due) => due,
                None => now_ns,
            }) + old(p).format.frame_interval_ns) as u64,
        ),
        final(p).resume_fade && !final(p).bonus_taken,
        muted ==> !final(p).has_prev,
        final(p).seq == old(p).seq,
{
    clock_is_monotone_here(*old(clock), old(p).format.frame_len as int);
}

/// A number is spent on every frame that left and every one the path refused, and on no other; a
/// frame that never left is nobody's predecessor, and only the end of datagrams ends the plane.
pub proof fn a_number_is_spent_on_what_was_built(
    p: &mut AudioPacer,
    outcome: Departure,
    now_ns: u64,
    goes_on: bool,
)
    requires
        old(p).oversized < u64::MAX,
        call_ensures(AudioPacer::departed, (p, outcome, now_ns), goes_on),
    ensures
        goes_on <==> outcome != Departure::Unavailable,
        outcome == Departure::Sent || outcome == Departure::TooLarge ==> final(p).seq == old(
            p).seq.wrapping_add(1),
        outcome == Departure::NotEncoded || outcome == Departure::Unavailable ==> final(p).seq
            == old(p).seq && final(p).has_prev == old(p).has_prev && final(p).sent_any == old(
            p).sent_any,
        outcome == Departure::Sent ==> final(p).sent_any && final(p).last_departure_ns == Some(
            now_ns,
        ) && (old(p).format.redundancy ==> final(p).has_prev),
        outcome == Departure::TooLarge ==> !final(p).has_prev && final(p).oversized == old(
            p).oversized + 1,
        outcome != Departure::TooLarge ==> final(p).oversized == old(p).oversized,
        final(p).backlog == old(p).backlog && final(p).due_ns == old(p).due_ns,
{
}

} // verus!
