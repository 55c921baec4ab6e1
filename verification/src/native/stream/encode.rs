//! The per-tick data path between the capturer, the encoder and the send thread: which frame a
//! tick submits, what each access unit is stamped with, and when a silent encoder is rebuilt.
//!
//! The encoder, the capturer and the channel stay with the caller; the loop asks this module what
//! to do and reports what came of it. Instants are nanoseconds of one monotonic clock, `*_pts_ns`
//! and `capture_ns` nanoseconds since the epoch.

use crate::send_pacing;
use crate::send_pacing::CaptureCredit;
use std::collections::VecDeque;
use vstd::prelude::*;

verus! {

/// In-place rebuilds of a failing encoder before the session ends.
pub const MAX_ENCODER_RESETS: u32 = 5;

/// A capture stamp older than this is not believed.
pub const MAX_FRAME_AGE_NS: u64 = 10_000_000_000;

/// Wire bits of an access unit.
#[derive(Clone, Copy, Debug, PartialEq, Eq, Structural)]
pub struct WireFlags {
    pub pic: u32,
    pub sof: u32,
    pub recovery_point: u32,
    pub recovery_close: u32,
    pub recovery_anchor: u32,
    pub chunk_aligned: u32,
}

/// What the encoder can do for loss recovery.
#[derive(Clone, Copy, Debug, PartialEq, Eq, Structural)]
pub struct EncoderCaps {
    pub intra_refresh_recovery: bool,
    /// Frames per refresh wave; 0 when there is none.
    pub intra_refresh_period: u32,
}

/// What the encoder says of an access unit.
#[derive(Clone, Copy, Debug, PartialEq, Eq, Structural)]
pub struct AuMarks {
    pub keyframe: bool,
    pub recovery_point: bool,
    pub recovery_close: bool,
    pub recovery_anchor: bool,
    pub chunk_aligned: bool,
}

/// The wave position after a frame: a keyframe restarts it, the last frame of a period too.
pub open spec fn wave_after(pos: u32, is_keyframe: bool, period: u32) -> int {
    if is_keyframe || pos + 1 >= period {
        0
    } else {
        pos + 1
    }
}

/// A frame closes a refresh wave: the `period`-th since the last keyframe or wave. A keyframe is
/// itself a clean anchor and never marked.
pub open spec fn closes_wave(pos: u32, is_keyframe: bool, period: u32) -> bool {
    !is_keyframe && pos + 1 >= period
}

/// Moves the wave position past one frame and says whether the frame closes a wave.
pub fn mark_recovery_boundary(ir_wave_pos: &mut u32, is_keyframe: bool, period: u32) -> (mark: bool)
    requires
        is_keyframe || *old(ir_wave_pos) < u32::MAX,
    ensures
        mark == closes_wave(*old(ir_wave_pos), is_keyframe, period),
        *final(ir_wave_pos) == wave_after(*old(ir_wave_pos), is_keyframe, period),
{
    if is_keyframe {
        *ir_wave_pos = 0;
        false
    } else {
        *ir_wave_pos = *ir_wave_pos + 1;
        if *ir_wave_pos >= period {
            *ir_wave_pos = 0;
            true
        } else {
            false
        }
    }
}

/// `flags` with `bit` set when `cond` holds.
pub open spec fn with_bit(flags: u32, cond: bool, bit: u32) -> u32 {
    if cond {
        flags | bit
    } else {
        flags
    }
}

/// The host marks wave boundaries itself for this encoder.
pub open spec fn marks_waves(caps: EncoderCaps) -> bool {
    caps.intra_refresh_recovery && caps.intra_refresh_period > 0
}

/// The wire flags of an access unit: picture, keyframe, then the recovery marks.
pub open spec fn flags_of(w: WireFlags, caps: EncoderCaps, pos: u32, m: AuMarks) -> u32 {
    let boundary = marks_waves(caps) && closes_wave(pos, m.keyframe, caps.intra_refresh_period);
    let picture = if m.keyframe {
        w.pic | w.sof
    } else {
        w.pic
    };
    with_bit(
        with_bit(
            with_bit(
                with_bit(picture, boundary || m.recovery_point, w.recovery_point),
                m.recovery_close,
                w.recovery_close,
            ),
            m.recovery_anchor,
            w.recovery_anchor,
        ),
        m.chunk_aligned,
        w.chunk_aligned,
    )
}

/// The flags of an access unit and what it means for the link counters.
#[derive(Clone, Copy, Debug, PartialEq, Eq, Structural)]
pub struct AuFlags {
    pub flags: u32,
    /// The encoder answered a loss with a clean anchor.
    pub anchor: bool,
    /// The encoder answered a loss by starting a wave.
    pub wave_start: bool,
}

/// Stamps the flags of one access unit.
pub fn au_flags(w: &WireFlags, caps: &EncoderCaps, ir_wave_pos: &mut u32, m: &AuMarks) -> (a:
    AuFlags)
    requires
        marks_waves(*caps) && !m.keyframe ==> *old(ir_wave_pos) < u32::MAX,
    ensures
        a.flags == flags_of(*w, *caps, *old(ir_wave_pos), *m),
        a.anchor == m.recovery_anchor,
        a.wave_start == (m.recovery_point && !m.recovery_close),
        *final(ir_wave_pos) == if marks_waves(*caps) {
            wave_after(*old(ir_wave_pos), m.keyframe, caps.intra_refresh_period)
        } else {
            *old(ir_wave_pos) as int
        },
{
    let mut flags: u32 = if m.keyframe {
        w.pic | w.sof
    } else {
        w.pic
    };
    let boundary: bool = caps.intra_refresh_recovery && caps.intra_refresh_period > 0
        && mark_recovery_boundary(ir_wave_pos, m.keyframe, caps.intra_refresh_period);
    if boundary || m.recovery_point {
        flags = flags | w.recovery_point;
    }
    if m.recovery_close {
        flags = flags | w.recovery_close;
    }
    if m.recovery_anchor {
        flags = flags | w.recovery_anchor;
    }
    if m.chunk_aligned {
        flags = flags | w.chunk_aligned;
    }
    AuFlags {
        flags,
        anchor: m.recovery_anchor,
        wave_start: m.recovery_point && !m.recovery_close,
    }
}

/// Frames since the last keyframe or wave boundary, over a run of frames (`true` = keyframe).
pub open spec fn wave_run(pos: u32, keyframes: Seq<bool>, period: u32) -> int
    decreases keyframes.len(),
{
    if keyframes.len() == 0 {
        pos as int
    } else {
        wave_after(
            wave_run(pos, keyframes.drop_last(), period) as u32,
            keyframes.last(),
            period,
        )
    }
}

/// Counted from a keyframe or a boundary, exactly every `period`-th frame closes a wave as long
/// as no keyframe comes between.
pub proof fn marks_land_every_period(period: u32, n: nat)
    requires
        period > 0,
        n <= u32::MAX,
    ensures
        wave_run(0, Seq::new(n, |i: int| false), period) == n % period as nat,
        closes_wave(
            wave_run(0, Seq::new(n, |i: int| false), period) as u32,
            false,
            period,
        ) <==> (n + 1) % period as nat == 0,
    decreases n,
{
    let run = Seq::new(n, |i: int| false);
    if n > 0 {
        marks_land_every_period(period, (n - 1) as nat);
        assert(run.drop_last() =~= Seq::new((n - 1) as nat, |i: int| false));
    }
    let p = period as int;
    let m = n as int;
    assert((m + 1) % p == if m % p + 1 == p { 0 } else { m % p + 1 }) by {
        vstd::arithmetic::div_mod::lemma_fundamental_div_mod(m, p);
        vstd::arithmetic::div_mod::lemma_mod_bound(m, p);
        let q = m / p;
        let r = m % p;
        if r + 1 == p {
            assert(m + 1 == (q + 1) * p + 0) by (nonlinear_arith)
                requires
                    m == p * q + r,
                    r + 1 == p,
            ;
            vstd::arithmetic::div_mod::lemma_fundamental_div_mod_converse(m + 1, p, q + 1, 0);
        } else {
            assert(m + 1 == q * p + (r + 1)) by (nonlinear_arith)
                requires
                    m == p * q + r,
            ;
            vstd::arithmetic::div_mod::lemma_fundamental_div_mod_converse(m + 1, p, q, r + 1);
        }
    }
    if n > 0 {
        let k = m - 1;
        assert(m % p == if k % p + 1 == p { 0 } else { k % p + 1 }) by {
            vstd::arithmetic::div_mod::lemma_fundamental_div_mod(k, p);
            vstd::arithmetic::div_mod::lemma_mod_bound(k, p);
            let q = k / p;
            let r = k % p;
            if r + 1 == p {
                assert(m == (q + 1) * p + 0) by (nonlinear_arith)
                    requires
                        m - 1 == p * q + r,
                        r + 1 == p,
                ;
                vstd::arithmetic::div_mod::lemma_fundamental_div_mod_converse(m, p, q + 1, 0);
            } else {
                assert(m == q * p + (r + 1)) by (nonlinear_arith)
                    requires
                        m - 1 == p * q + r,
                ;
                vstd::arithmetic::div_mod::lemma_fundamental_div_mod_converse(m, p, q, r + 1);
            }
        }
        vstd::arithmetic::div_mod::lemma_mod_bound(k, p);
    } else {
        vstd::arithmetic::div_mod::lemma_small_mod(0, period as nat);
    }
}

/// A submitted frame whose access unit has not come back.
#[derive(Clone, Copy, Debug, PartialEq, Eq, Structural)]
pub struct Inflight {
    pub capture_ns: u64,
    pub submit_ns: u64,
    /// When the next frame is due: what the send is paced towards.
    pub deadline_ns: u64,
}

/// The loop's plain counters and clocks.
#[derive(Clone, Copy, Debug, PartialEq, Eq, Structural)]
pub struct LoopState {
    pub interval_ns: u64,
    pub next_ns: u64,
    pub last_au_ns: u64,
    /// The wire index of the next access unit.
    pub au_seq: u32,
    pub sent: u64,
    pub encoder_resets: u32,
    /// A streamed access unit was opened on the wire and not closed yet.
    pub wire_frame_open: bool,
    pub ir_wave_pos: u32,
}

/// The encode loop between one submit and the access units it owes.
pub struct EncodeLoop {
    pub st: LoopState,
    pub inflight: VecDeque<Inflight>,
}

/// How a capturer that wakes on arrivals is waited for.
#[derive(Clone, Copy, Debug, PartialEq, Eq, Structural)]
pub struct ArrivalWait {
    pub sleep_ns: u64,
    /// How long a frame is waited for after the sleep.
    pub until_ns: u64,
}

/// The stamps of a tick's frame.
#[derive(Clone, Copy, Debug, PartialEq, Eq, Structural)]
pub struct FrameStamp {
    pub capture_ns: u64,
    /// Delivery to submit, in microseconds; 0 for a repeat or an unbelievable stamp.
    pub queue_us: u32,
}

/// A capture stamp is believed when it is set, not in the future and under ten seconds old.
pub open spec fn plausible(pts_ns: u64, submit_ns: u64) -> bool {
    0 < pts_ns <= submit_ns && submit_ns - pts_ns < MAX_FRAME_AGE_NS
}

/// Stamps a tick's frame: a fresh frame with a believable capture time keeps it; anything else is
/// stamped with the submit time.
pub fn stamp_frame(pts_ns: u64, submit_ns: u64, repeat: bool) -> (s: FrameStamp)
    ensures
        s == if !repeat && plausible(pts_ns, submit_ns) {
            FrameStamp {
                capture_ns: pts_ns,
                queue_us: ((submit_ns - pts_ns) / 1000) as u32,
            }
        } else {
            FrameStamp { capture_ns: submit_ns, queue_us: 0 }
        },
{
    let age_ns: u64 = submit_ns.saturating_sub(pts_ns);
    let believed: bool = pts_ns > 0 && pts_ns <= submit_ns && age_ns < MAX_FRAME_AGE_NS;
    if !repeat && believed {
        FrameStamp { capture_ns: pts_ns, queue_us: (age_ns / 1000) as u32 }
    } else {
        FrameStamp { capture_ns: submit_ns, queue_us: 0 }
    }
}

/// A failed submit or a stall.
#[derive(Clone, Copy, Debug, PartialEq, Eq, Structural)]
pub enum ResetVerdict {
    /// The session ends.
    GiveUp,
    /// Rebuild the encoder in place.
    Rebuild,
}

/// The wait after the `resets`-th failed submit: 100 ms doubling to 1.6 s, at least one interval.
pub open spec fn reset_backoff(resets: u32, interval_ns: u64) -> int {
    let base = if resets <= 1 {
        100_000_000int
    } else if resets == 2 {
        200_000_000
    } else if resets == 3 {
        400_000_000
    } else if resets == 4 {
        800_000_000
    } else {
        1_600_000_000
    };
    if interval_ns > base {
        interval_ns as int
    } else {
        base
    }
}

/// What a chunk or a whole access unit is sent with.
#[derive(Clone, Copy, Debug, PartialEq, Eq, Structural)]
pub struct AuMessage {
    pub capture_ns: u64,
    pub submit_ns: u64,
    pub deadline_ns: u64,
    pub flags: u32,
    pub frame_index: u32,
    pub anchor: bool,
    pub wave_start: bool,
}

/// One chunk of a streamed access unit, as the encoder hands it over.
#[derive(Clone, Copy, Debug, PartialEq, Eq, Structural)]
pub struct ChunkInfo {
    pub first: bool,
    pub last: bool,
    /// The driver's own present time; 0 when it has none.
    pub pts_ns: u64,
    pub marks: AuMarks,
}

/// The capture time an access unit carries: the driver stamps its own, which beats the tick's
/// clock for a burst of units it already held.
pub open spec fn au_capture(owed: bool, pts_ns: u64, tick_capture_ns: u64) -> u64 {
    if owed && pts_ns > 0 {
        pts_ns
    } else {
        tick_capture_ns
    }
}

/// `n` copies of a frame at the end of the queue.
pub open spec fn with_owed(q: Seq<Inflight>, f: Inflight, n: nat) -> Seq<Inflight> {
    q + Seq::new(n, |i: int| f)
}

impl EncodeLoop {
    pub open spec fn wf(self) -> bool {
        self.st.ir_wave_pos < u32::MAX
    }

    pub fn new(interval_ns: u64, now_ns: u64) -> (l: EncodeLoop)
        ensures
            l.wf(),
            l.inflight@ == Seq::<Inflight>::empty(),
            l.st == (LoopState {
                interval_ns,
                next_ns: now_ns,
                last_au_ns: now_ns,
                au_seq: 0,
                sent: 0,
                encoder_resets: 0,
                wire_frame_open: false,
                ir_wave_pos: 0,
            }),
    {
        EncodeLoop {
            st: LoopState {
                interval_ns,
                next_ns: now_ns,
                last_au_ns: now_ns,
                au_seq: 0,
                sent: 0,
                encoder_resets: 0,
                wire_frame_open: false,
                ir_wave_pos: 0,
            },
            inflight: VecDeque::new(),
        }
    }

    /// The wire index the frame submitted now will carry: one past every unit still owed.
    pub fn wire_index(&self) -> (i: u32)
        ensures
            i == self.st.au_seq.wrapping_add(self.inflight@.len() as u32),
    {
        self.st.au_seq.wrapping_add(self.inflight.len() as u32)
    }

    /// Books a submitted frame. A driver that already held `owed` units owes that many, any other
    /// encoder one. A capturer that waits for arrivals restarts the schedule at `now_ns`; the
    /// fixed tick keeps its grid.
    pub fn submitted(
        &mut self,
        owed: Option<usize>,
        capture_ns: u64,
        submit_ns: u64,
        arrival_driven: bool,
        now_ns: u64,
    )
        requires
            old(self).wf(),
            (if arrival_driven {
                now_ns
            } else {
                old(self).st.next_ns
            }) + old(self).st.interval_ns <= u64::MAX,
        ensures
            final(self).wf(),
            final(self).st == (LoopState {
                next_ns: ((if arrival_driven {
                    now_ns
                } else {
                    old(self).st.next_ns
                }) + old(self).st.interval_ns) as u64,
                ..old(self).st
            }),
            final(self).inflight@ == with_owed(
                old(self).inflight@,
                Inflight { capture_ns, submit_ns, deadline_ns: final(self).st.next_ns },
                match owed {
                    Some(n) => n as nat,
                    None => 1,
                },
            ),
    {
        let from: u64 = if arrival_driven {
            now_ns
        } else {
            self.st.next_ns
        };
        self.st.next_ns = from + self.st.interval_ns;
        let f: Inflight = Inflight { capture_ns, submit_ns, deadline_ns: self.st.next_ns };
        let n: usize = match owed {
            Some(n) => n,
            None => 1,
        };
        let ghost before = self.inflight@;
        let mut i: usize = 0;
        while i < n
            invariant
                i <= n,
                self.inflight@ == with_owed(before, f, i as nat),
                self.st.ir_wave_pos < u32::MAX,
                self.st == (LoopState { next_ns: f.deadline_ns, ..old(self).st }),
            decreases n - i,
        {
            self.inflight.push_back(f);
            i = i + 1;
            assert(self.inflight@ =~= with_owed(before, f, i as nat));
        }
    }

    /// The loop polls the encoder while at least `depth` units are owed.
    pub fn owes(&self, depth: usize) -> (p: bool)
        ensures
            p == (self.inflight@.len() >= depth),
    {
        self.inflight.len() >= depth
    }

    /// A failed submit: a configuration error ends the session; otherwise one more rebuild, up to
    /// [`MAX_ENCODER_RESETS`].
    pub fn submit_failed(&mut self, terminal: bool) -> (v: ResetVerdict)
        requires
            old(self).wf(),
            old(self).st.encoder_resets < u32::MAX,
        ensures
            final(self).wf(),
            final(self).inflight@ == old(self).inflight@,
            terminal ==> v == ResetVerdict::GiveUp && final(self).st == old(self).st,
            !terminal ==> final(self).st == (LoopState {
                encoder_resets: (old(self).st.encoder_resets + 1) as u32,
                ..old(self).st
            }),
            !terminal ==> (v == ResetVerdict::Rebuild <==> old(self).st.encoder_resets
                < MAX_ENCODER_RESETS),
    {
        if terminal {
            return ResetVerdict::GiveUp;
        }
        self.st.encoder_resets = self.st.encoder_resets + 1;
        if self.st.encoder_resets > MAX_ENCODER_RESETS {
            ResetVerdict::GiveUp
        } else {
            ResetVerdict::Rebuild
        }
    }

    /// The encoder was rebuilt in place: every unit it owed is forfeit, and the stall watch
    /// restarts.
    pub fn rebuilt(&mut self, now_ns: u64)
        requires
            old(self).wf(),
        ensures
            final(self).wf(),
            final(self).inflight@ == Seq::<Inflight>::empty(),
            final(self).st == (LoopState { last_au_ns: now_ns, ..old(self).st }),
    {
        self.inflight.clear();
        self.st.last_au_ns = now_ns;
    }

    /// The wait before the tick after a failed submit, and the schedule that follows it.
    pub fn back_off(&mut self, now_ns: u64) -> (ns: u64)
        requires
            old(self).wf(),
            now_ns + reset_backoff(old(self).st.encoder_resets, old(self).st.interval_ns)
                <= u64::MAX,
        ensures
            final(self).wf(),
            final(self).inflight@ == old(self).inflight@,
            ns == reset_backoff(old(self).st.encoder_resets, old(self).st.interval_ns),
            final(self).st == (LoopState { next_ns: (now_ns + ns) as u64, ..old(self).st }),
    {
        let resets: u32 = self.st.encoder_resets;
        let base: u64 = if resets <= 1 {
            100_000_000
        } else if resets == 2 {
            200_000_000
        } else if resets == 3 {
            400_000_000
        } else if resets == 4 {
            800_000_000
        } else {
            1_600_000_000
        };
        let ns: u64 = if self.st.interval_ns > base {
            self.st.interval_ns
        } else {
            base
        };
        self.st.next_ns = now_ns + ns;
        ns
    }

    /// Stamps one chunk of a streamed access unit. `flags` are those of the unit so far: its first
    /// chunk sets them. A first chunk while the previous unit never closed closes that one on the
    /// wire, so the new unit is not spliced onto a truncated prefix.
    pub fn on_chunk(
        &mut self,
        w: &WireFlags,
        caps: &EncoderCaps,
        c: &ChunkInfo,
        flags: u32,
        owed: bool,
        now_ns: u64,
    ) -> (m: AuMessage)
        requires
            old(self).wf(),
            old(self).inflight@.len() > 0,
            old(self).st.sent < u64::MAX,
        ensures
            final(self).wf(),
            ({
                let o = *old(self);
                let splice = c.first && o.st.wire_frame_open;
                let queue = if splice && o.inflight@.len() > 1 {
                    o.inflight@.drop_first()
                } else {
                    o.inflight@
                };
                let index = if splice {
                    o.st.au_seq.wrapping_add(1)
                } else {
                    o.st.au_seq
                };
                &&& m == (AuMessage {
                    capture_ns: au_capture(owed, c.pts_ns, queue[0].capture_ns),
                    submit_ns: queue[0].submit_ns,
                    deadline_ns: queue[0].deadline_ns,
                    flags: if c.first {
                        flags_of(*w, *caps, o.st.ir_wave_pos, c.marks)
                    } else {
                        flags
                    },
                    frame_index: index,
                    anchor: c.first && c.marks.recovery_anchor,
                    wave_start: c.first && c.marks.recovery_point && !c.marks.recovery_close,
                })
                &&& final(self).inflight@ == if c.last {
                    queue.drop_first()
                } else {
                    queue
                }
                &&& final(self).st == (LoopState {
                    last_au_ns: now_ns,
                    encoder_resets: 0,
                    wire_frame_open: !c.last,
                    ir_wave_pos: if c.first && marks_waves(*caps) {
                        wave_after(
                            o.st.ir_wave_pos,
                            c.marks.keyframe,
                            caps.intra_refresh_period,
                        ) as u32
                    } else {
                        o.st.ir_wave_pos
                    },
                    au_seq: if c.last {
                        index.wrapping_add(1)
                    } else {
                        index
                    },
                    sent: if c.last {
                        (o.st.sent + 1) as u64
                    } else {
                        o.st.sent
                    },
                    ..o.st
                })
            }),
    {
        self.st.last_au_ns = now_ns;
        self.st.encoder_resets = 0;
        let mut queued: Inflight = self.inflight[0];
        if c.first && self.st.wire_frame_open {
            if self.inflight.len() > 1 {
                let _dropped: Option<Inflight> = self.inflight.pop_front();
                queued = self.inflight[0];
            }
            self.st.au_seq = self.st.au_seq.wrapping_add(1);
        }
        self.st.wire_frame_open = !c.last;
        let mut flags: u32 = flags;
        let mut anchor: bool = false;
        let mut wave_start: bool = false;
        if c.first {
            let mut pos: u32 = self.st.ir_wave_pos;
            let a: AuFlags = au_flags(w, caps, &mut pos, &c.marks);
            self.st.ir_wave_pos = pos;
            flags = a.flags;
            anchor = a.anchor;
            wave_start = a.wave_start;
        }
        let capture_ns: u64 = if owed && c.pts_ns > 0 {
            c.pts_ns
        } else {
            queued.capture_ns
        };
        let m: AuMessage = AuMessage {
            capture_ns,
            submit_ns: queued.submit_ns,
            deadline_ns: queued.deadline_ns,
            flags,
            frame_index: self.st.au_seq,
            anchor,
            wave_start,
        };
        if c.last {
            let _done: Option<Inflight> = self.inflight.pop_front();
            self.st.au_seq = self.st.au_seq.wrapping_add(1);
            self.st.sent = self.st.sent + 1;
        }
        m
    }

    /// Stamps one whole access unit. The unit counts once the send thread has taken it
    /// ([`EncodeLoop::delivered`]).
    pub fn on_au(
        &mut self,
        w: &WireFlags,
        caps: &EncoderCaps,
        marks: &AuMarks,
        pts_ns: u64,
        owed: bool,
        now_ns: u64,
    ) -> (m: AuMessage)
        requires
            old(self).wf(),
            old(self).inflight@.len() > 0,
        ensures
            final(self).wf(),
            final(self).inflight@ == old(self).inflight@.drop_first(),
            ({
                let o = *old(self);
                &&& m == (AuMessage {
                    capture_ns: au_capture(owed, pts_ns, o.inflight@[0].capture_ns),
                    submit_ns: o.inflight@[0].submit_ns,
                    deadline_ns: o.inflight@[0].deadline_ns,
                    flags: flags_of(*w, *caps, o.st.ir_wave_pos, *marks),
                    frame_index: o.st.au_seq,
                    anchor: marks.recovery_anchor,
                    wave_start: marks.recovery_point && !marks.recovery_close,
                })
                &&& final(self).st == (LoopState {
                    last_au_ns: now_ns,
                    encoder_resets: 0,
                    ir_wave_pos: if marks_waves(*caps) {
                        wave_after(
                            o.st.ir_wave_pos,
                            marks.keyframe,
                            caps.intra_refresh_period,
                        ) as u32
                    } else {
                        o.st.ir_wave_pos
                    },
                    ..o.st
                })
            }),
    {
        self.st.last_au_ns = now_ns;
        self.st.encoder_resets = 0;
        let queued: Inflight = self.inflight[0];
        let _done: Option<Inflight> = self.inflight.pop_front();
        let mut pos: u32 = self.st.ir_wave_pos;
        let a: AuFlags = au_flags(w, caps, &mut pos, marks);
        self.st.ir_wave_pos = pos;
        let capture_ns: u64 = if owed && pts_ns > 0 {
            pts_ns
        } else {
            queued.capture_ns
        };
        AuMessage {
            capture_ns,
            submit_ns: queued.submit_ns,
            deadline_ns: queued.deadline_ns,
            flags: a.flags,
            frame_index: self.st.au_seq,
            anchor: a.anchor,
            wave_start: a.wave_start,
        }
    }

    /// The send thread took a whole access unit.
    pub fn delivered(&mut self)
        requires
            old(self).wf(),
            old(self).st.sent < u64::MAX,
        ensures
            final(self).wf(),
            final(self).inflight@ == old(self).inflight@,
            final(self).st == (LoopState {
                au_seq: old(self).st.au_seq.wrapping_add(1),
                sent: (old(self).st.sent + 1) as u64,
                ..old(self).st
            }),
    {
        self.st.au_seq = self.st.au_seq.wrapping_add(1);
        self.st.sent = self.st.sent + 1;
    }

    /// After the loop: the next owed frame and the stamps its unit is drained with, or nothing
    /// when no unit is owed.
    pub fn drain_next(&mut self, w: &WireFlags, keyframe: bool) -> (m: Option<AuMessage>)
        requires
            old(self).wf(),
        ensures
            final(self).wf(),
            final(self).st == old(self).st,
            old(self).inflight@.len() == 0 ==> m is None && final(self).inflight@
                == old(self).inflight@,
            old(self).inflight@.len() > 0 ==> final(self).inflight@
                == old(self).inflight@.drop_first() && m == Some(
                AuMessage {
                    capture_ns: old(self).inflight@[0].capture_ns,
                    submit_ns: old(self).inflight@[0].submit_ns,
                    deadline_ns: old(self).inflight@[0].deadline_ns,
                    flags: if keyframe {
                        w.pic | w.sof
                    } else {
                        w.pic
                    },
                    frame_index: old(self).st.au_seq,
                    anchor: false,
                    wave_start: false,
                },
            ),
    {
        match self.inflight.pop_front() {
            None => None,
            Some(q) => Some(
                AuMessage {
                    capture_ns: q.capture_ns,
                    submit_ns: q.submit_ns,
                    deadline_ns: q.deadline_ns,
                    flags: if keyframe {
                        w.pic | w.sof
                    } else {
                        w.pic
                    },
                    frame_index: self.st.au_seq,
                    anchor: false,
                    wave_start: false,
                },
            ),
        }
    }

    /// How long the encoder may be silent: the stall window, at least eight intervals.
    pub open spec fn window_of(self, stall_window_ns: u64) -> int {
        if stall_window_ns > 8 * self.st.interval_ns {
            stall_window_ns as int
        } else {
            8 * self.st.interval_ns
        }
    }

    /// How many frames fit the window, rounded up; an interval counts as a microsecond at least.
    pub open spec fn frames_in(self, window_ns: int) -> int {
        let step = if self.st.interval_ns < 1000 {
            1000
        } else {
            self.st.interval_ns as int
        };
        (window_ns + step - 1) / step
    }

    /// The encoder is silent: something is owed, and either nothing came for the window or more is
    /// owed than the window and the depth account for.
    pub open spec fn stalled(self, depth: usize, stall_window_ns: u64, now_ns: u64) -> bool {
        let window = self.window_of(stall_window_ns);
        self.inflight@.len() > 0 && ((now_ns - self.st.last_au_ns >= window || window == 0)
            || self.inflight@.len() > depth + self.frames_in(window))
    }

    /// Judges the encoder after a tick: fine, to be rebuilt, or given up on.
    pub fn check_stall(
        &mut self,
        poll_failed: bool,
        depth: usize,
        stall_window_ns: u64,
        now_ns: u64,
    ) -> (v: Option<ResetVerdict>)
        requires
            old(self).wf(),
            old(self).st.encoder_resets < u32::MAX,
        ensures
            final(self).wf(),
            final(self).inflight@ == old(self).inflight@,
            ({
                let bad = poll_failed || old(self).stalled(depth, stall_window_ns, now_ns);
                &&& v is None <==> !bad
                &&& !bad ==> final(self).st == old(self).st
                &&& bad ==> final(self).st == (LoopState {
                    encoder_resets: (old(self).st.encoder_resets + 1) as u32,
                    ..old(self).st
                })
                &&& bad ==> (v == Some(ResetVerdict::Rebuild) <==> old(self).st.encoder_resets
                    < MAX_ENCODER_RESETS)
                &&& bad ==> (v == Some(ResetVerdict::GiveUp) <==> old(self).st.encoder_resets
                    >= MAX_ENCODER_RESETS)
            }),
    {
        let floor: u128 = self.st.interval_ns as u128 * 8;
        let window: u128 = if stall_window_ns as u128 > floor {
            stall_window_ns as u128
        } else {
            floor
        };
        let step: u128 = if self.st.interval_ns < 1000 {
            1000
        } else {
            self.st.interval_ns as u128
        };
        let quiet: u64 = now_ns.saturating_sub(self.st.last_au_ns);
        let fits: u128 = (window + step - 1) / step;
        assert(fits <= window + step - 1) by (nonlinear_arith)
            requires
                fits == (window + step - 1) / step as int,
                step >= 1000,
                window >= 0,
        ;
        let backlog: u128 = depth as u128 + fits;
        let owed: usize = self.inflight.len();
        let stalled: bool = owed > 0 && (quiet as u128 >= window || owed as u128 > backlog);
        if !poll_failed && !stalled {
            return None;
        }
        self.st.encoder_resets = self.st.encoder_resets + 1;
        if self.st.encoder_resets > MAX_ENCODER_RESETS {
            Some(ResetVerdict::GiveUp)
        } else {
            Some(ResetVerdict::Rebuild)
        }
    }

    /// Until when a driver is waited on for the units it holds: an interval from the submit for a
    /// fresh frame, not at all on a repeat.
    pub fn au_wait(&self, repeat: bool, submit_ns: u64) -> (ns: u64)
        requires
            submit_ns + self.st.interval_ns <= u64::MAX,
        ensures
            ns == if repeat {
                submit_ns as int
            } else {
                submit_ns + self.st.interval_ns
            },
    {
        if repeat {
            submit_ns
        } else {
            submit_ns + self.st.interval_ns
        }
    }

    /// The wait of a capturer that wakes on arrivals: sleep until nine tenths of an interval after
    /// the last capture, or longer while the credit is spent, then wait for a frame until half an
    /// interval past the tick. The floor is anchored to the capture, not to the tick: a synchronous
    /// encoder folds its encode into the cadence.
    pub fn arrival_wait(&self, credit: &mut CaptureCredit, capture_ns: u64, now_ns: u64) -> (w:
        ArrivalWait)
        requires
            old(credit).wf(),
        ensures
            final(credit).wf(),
            final(credit).last_ns == now_ns,
            final(credit).credit == send_pacing::banked(
                old(credit).credit as int,
                send_pacing::most(now_ns - old(credit).last_ns, 0),
                self.st.interval_ns as int,
            ),
            ({
                let floor = send_pacing::least(
                    capture_ns + self.st.interval_ns * 9 / 10,
                    u64::MAX as int,
                );
                let banked = send_pacing::least(
                    now_ns + send_pacing::credit_wait(
                        final(credit).credit as int,
                        self.st.interval_ns as int,
                    ),
                    u64::MAX as int,
                );
                w.sleep_ns == send_pacing::most(send_pacing::most(floor, banked) - now_ns, 0)
            }),
            w.until_ns == send_pacing::least(
                self.st.next_ns + self.st.interval_ns / 2,
                u64::MAX as int,
            ),
    {
        let part: u64 = (self.st.interval_ns as u128 * 9 / 10) as u64;
        let floor: u64 = capture_ns.saturating_add(part);
        let banked: u64 = credit.earliest(now_ns, self.st.interval_ns);
        let earliest: u64 = if floor > banked {
            floor
        } else {
            banked
        };
        ArrivalWait {
            sleep_ns: earliest.saturating_sub(now_ns),
            until_ns: self.st.next_ns.saturating_add(self.st.interval_ns / 2),
        }
    }

    /// The fixed tick's sleep: until the next tick is due, or none and the grid restarts now.
    pub fn tick_sleep(&mut self, now_ns: u64) -> (ns: Option<u64>)
        requires
            old(self).wf(),
        ensures
            final(self).wf(),
            final(self).inflight@ == old(self).inflight@,
            ns == if old(self).st.next_ns >= now_ns {
                Some((old(self).st.next_ns - now_ns) as u64)
            } else {
                None
            },
            final(self).st == (LoopState {
                next_ns: if old(self).st.next_ns >= now_ns {
                    old(self).st.next_ns
                } else {
                    now_ns
                },
                ..old(self).st
            }),
    {
        if self.st.next_ns >= now_ns {
            Some(self.st.next_ns - now_ns)
        } else {
            self.st.next_ns = now_ns;
            None
        }
    }
}

/// Stage timings of an access unit: the host's own stamps, or the driver's.
#[derive(Clone, Copy, Debug, PartialEq, Eq, Structural)]
pub struct AuStages {
    pub queue_us: u32,
    pub encode_us: u32,
    pub ipc_us: u32,
    /// The driver stamped its slot, so pool wait, encode and hand-off are apart.
    pub split: bool,
}

/// What the driver reports of the unit just taken, in nanoseconds.
#[derive(Clone, Copy, Debug, PartialEq, Eq, Structural)]
pub struct DriverSplit {
    pub pool_ns: Option<u64>,
    pub encode_ns: u64,
    pub ipc_ns: u64,
}

/// Whole microseconds, held to a `u32`.
pub open spec fn us_of(ns: u64) -> u32 {
    if ns / 1000 > u32::MAX {
        u32::MAX
    } else {
        (ns / 1000) as u32
    }
}

fn to_us(ns: u64) -> (us: u32)
    ensures
        us == us_of(ns),
{
    let us: u64 = ns / 1000;
    if us > u32::MAX as u64 {
        u32::MAX
    } else {
        us as u32
    }
}

impl AuStages {
    pub fn host(encode_us: u32, queue_us: u32) -> (s: AuStages)
        ensures
            s == (AuStages { queue_us, encode_us, ipc_us: 0, split: false }),
    {
        AuStages { queue_us, encode_us, ipc_us: 0, split: false }
    }

    /// The driver's stages: its split when it stamped one, else its present-to-arrival time in
    /// one lump. All zero before its first unit.
    pub fn driver(split: Option<DriverSplit>, present_to_arrival_ns: Option<u64>) -> (s: AuStages)
        ensures
            s == match split {
                Some(d) => AuStages {
                    queue_us: match d.pool_ns {
                        Some(p) => us_of(p),
                        None => 0,
                    },
                    encode_us: us_of(d.encode_ns),
                    ipc_us: us_of(d.ipc_ns),
                    split: true,
                },
                None => AuStages {
                    queue_us: 0,
                    encode_us: match present_to_arrival_ns {
                        Some(n) => us_of(n),
                        None => 0,
                    },
                    ipc_us: 0,
                    split: false,
                },
            },
    {
        match split {
            Some(d) => AuStages {
                queue_us: match d.pool_ns {
                    Some(p) => to_us(p),
                    None => 0,
                },
                encode_us: to_us(d.encode_ns),
                ipc_us: to_us(d.ipc_ns),
                split: true,
            },
            None => AuStages {
                queue_us: 0,
                encode_us: match present_to_arrival_ns {
                    Some(n) => to_us(n),
                    None => 0,
                },
                ipc_us: 0,
                split: false,
            },
        }
    }
}

/// The depth units are polled at: a driver's own units are drained one by one, any other encoder's
/// at the tick's depth.
pub fn poll_depth(driver_holds: bool, depth: usize) -> (d: usize)
    ensures
        d == if driver_holds {
            1
        } else {
            depth
        },
{
    if driver_holds {
        1
    } else {
        depth
    }
}

/// The mastering data of a frame: only a source that has some carries any, and what the client
/// said of its own screen stands in its place.
pub fn hdr_for<M>(source: Option<M>, client: Option<M>) -> (m: Option<M>)
    ensures
        m == if source is Some && client is Some {
            client
        } else {
            source
        },
{
    match source {
        Some(own) => match client {
            Some(theirs) => Some(theirs),
            None => Some(own),
        },
        None => None,
    }
}

/// HDR metadata rides on every keyframe and once after a change.
pub fn hdr_meta_due(has_meta: bool, keyframe: bool, resend: &mut bool) -> (send: bool)
    ensures
        send == (has_meta && (keyframe || *old(resend))),
        *final(resend) == (*old(resend) && !send),
{
    if !has_meta {
        return false;
    }
    if keyframe || *resend {
        *resend = false;
        true
    } else {
        false
    }
}

/// The wire index told at submit is the one stamped when the unit comes back: with `owed` units
/// ahead of it, that many deliveries lead from the current index to it.
pub proof fn the_predicted_index_is_the_stamped_one(au_seq: u32, ahead: nat)
    requires
        ahead <= u32::MAX,
    ensures
        au_seq.wrapping_add(ahead as u32) == after_deliveries(au_seq, ahead),
    decreases ahead,
{
    if ahead > 0 {
        the_predicted_index_is_the_stamped_one(au_seq, (ahead - 1) as nat);
    }
}

/// The index after `n` units have been counted.
pub open spec fn after_deliveries(au_seq: u32, n: nat) -> u32
    decreases n,
{
    if n == 0 {
        au_seq
    } else {
        after_deliveries(au_seq, (n - 1) as nat).wrapping_add(1)
    }
}

/// The wire bits are apart: each is set, and no two share one.
pub open spec fn bits_apart(w: WireFlags) -> bool {
    &&& w.pic != 0 && w.sof != 0 && w.recovery_point != 0 && w.recovery_close != 0
    &&& w.recovery_anchor != 0 && w.chunk_aligned != 0
    &&& w.pic & w.sof == 0 && w.pic & w.recovery_point == 0 && w.pic & w.recovery_close == 0
    &&& w.pic & w.recovery_anchor == 0 && w.pic & w.chunk_aligned == 0
    &&& w.sof & w.recovery_point == 0 && w.sof & w.recovery_close == 0
    &&& w.sof & w.recovery_anchor == 0 && w.sof & w.chunk_aligned == 0
    &&& w.recovery_point & w.recovery_close == 0 && w.recovery_point & w.recovery_anchor == 0
    &&& w.recovery_point & w.chunk_aligned == 0 && w.recovery_close & w.recovery_anchor == 0
    &&& w.recovery_close & w.chunk_aligned == 0 && w.recovery_anchor & w.chunk_aligned == 0
}

/// `bit` is set in `flags` exactly when `cond` holds, and then whole.
pub open spec fn tells(flags: u32, bit: u32, cond: bool) -> bool {
    flags & bit == if cond {
        bit
    } else {
        0
    }
}

proof fn lemma_bits(
    p: u32,
    s: u32,
    r: u32,
    c: u32,
    a: u32,
    l: u32,
    key: bool,
    point: bool,
    close: bool,
    anchor: bool,
    aligned: bool,
    f: u32,
)
    by (bit_vector)
    requires
        p & s == 0 && p & r == 0 && p & c == 0 && p & a == 0 && p & l == 0,
        s & r == 0 && s & c == 0 && s & a == 0 && s & l == 0,
        r & c == 0 && r & a == 0 && r & l == 0 && c & a == 0 && c & l == 0 && a & l == 0,
        f == p | (if key { s } else { 0 }) | (if point { r } else { 0 }) | (if close { c } else {
            0
        }) | (if anchor { a } else { 0 }) | (if aligned { l } else { 0 }),
    ensures
        f & p == p,
        f & s == (if key { s } else { 0 }),
        f & r == (if point { r } else { 0 }),
        f & c == (if close { c } else { 0 }),
        f & a == (if anchor { a } else { 0 }),
        f & l == (if aligned { l } else { 0 }),
        f & !(p | s | r | c | a | l) == 0,
{
}

proof fn lemma_flags(w: WireFlags, caps: EncoderCaps, pos: u32, m: AuMarks)
    requires
        bits_apart(w),
    ensures
        ({
            let f = flags_of(w, caps, pos, m);
            let closes = caps.intra_refresh_recovery && caps.intra_refresh_period > 0 && !m.keyframe
                && pos + 1 >= caps.intra_refresh_period;
            &&& f & w.pic == w.pic
            &&& tells(f, w.sof, m.keyframe)
            &&& tells(f, w.recovery_point, m.recovery_point || closes)
            &&& tells(f, w.recovery_close, m.recovery_close)
            &&& tells(f, w.recovery_anchor, m.recovery_anchor)
            &&& tells(f, w.chunk_aligned, m.chunk_aligned)
            &&& f & !(w.pic | w.sof | w.recovery_point | w.recovery_close | w.recovery_anchor
                | w.chunk_aligned) == 0
        }),
{
    let f = flags_of(w, caps, pos, m);
    let point = m.recovery_point || (marks_waves(caps) && closes_wave(
        pos,
        m.keyframe,
        caps.intra_refresh_period,
    ));
    let zero = 0u32;
    assert(forall|x: u32| #[trigger] (x | zero) == x) by (bit_vector)
        requires
            zero == 0,
    ;
    lemma_bits(
        w.pic,
        w.sof,
        w.recovery_point,
        w.recovery_close,
        w.recovery_anchor,
        w.chunk_aligned,
        m.keyframe,
        point,
        m.recovery_close,
        m.recovery_anchor,
        m.chunk_aligned,
        f,
    );
}

/// A unit's flags say what the encoder marked and nothing else: the picture bit always, the
/// keyframe bit exactly for a keyframe, each recovery bit and the alignment bit exactly where the
/// unit has that mark. The recovery point also stands where the unit ends a refresh wave that the
/// host counts.
pub proof fn a_unit_carries_the_bits_of_its_marks(
    w: &WireFlags,
    caps: &EncoderCaps,
    pos: &mut u32,
    m: &AuMarks,
    a: AuFlags,
)
    requires
        bits_apart(*w),
        call_ensures(au_flags, (w, caps, pos, m), a),
    ensures
        a.flags & w.pic == w.pic,
        tells(a.flags, w.sof, m.keyframe),
        tells(
            a.flags,
            w.recovery_point,
            m.recovery_point || (caps.intra_refresh_recovery && caps.intra_refresh_period > 0
                && !m.keyframe && *old(pos) + 1 >= caps.intra_refresh_period),
        ),
        tells(a.flags, w.recovery_close, m.recovery_close),
        tells(a.flags, w.recovery_anchor, m.recovery_anchor),
        tells(a.flags, w.chunk_aligned, m.chunk_aligned),
        a.flags & !(w.pic | w.sof | w.recovery_point | w.recovery_close | w.recovery_anchor
            | w.chunk_aligned) == 0,
        a.anchor == m.recovery_anchor,
        a.wave_start == (m.recovery_point && !m.recovery_close),
{
    lemma_flags(*w, *caps, *old(pos), *m);
}

/// A refresh wave is counted in frames: a keyframe and the frame that ends a wave start the next
/// one, any other frame moves it on by one, and an encoder that marks its own waves leaves the
/// count alone.
pub proof fn a_wave_counts_frames(
    w: &WireFlags,
    caps: &EncoderCaps,
    pos: &mut u32,
    m: &AuMarks,
    a: AuFlags,
)
    requires
        *old(pos) < u32::MAX,
        call_ensures(au_flags, (w, caps, pos, m), a),
    ensures
        !caps.intra_refresh_recovery || caps.intra_refresh_period == 0 ==> *final(pos) == *old(pos),
        caps.intra_refresh_recovery && caps.intra_refresh_period > 0 ==> {
            &&& *final(pos) == 0 || *final(pos) == *old(pos) + 1
            &&& *final(pos) == 0 <==> m.keyframe || *old(pos) + 1 >= caps.intra_refresh_period
            &&& *final(pos) < caps.intra_refresh_period
        },
{
}

/// A whole unit goes out as the frame it was submitted as: the oldest one owed, whose times it
/// carries, under the next index, with the bits of its marks. A driver's own capture time stands
/// in for the tick's.
pub proof fn a_unit_answers_the_oldest_frame_owed(
    l: &mut EncodeLoop,
    w: &WireFlags,
    caps: &EncoderCaps,
    marks: &AuMarks,
    pts_ns: u64,
    owed: bool,
    now_ns: u64,
    m: AuMessage,
)
    requires
        bits_apart(*w),
        old(l).inflight@.len() > 0,
        call_ensures(EncodeLoop::on_au, (l, w, caps, marks, pts_ns, owed, now_ns), m),
    ensures
        m.submit_ns == old(l).inflight@[0].submit_ns,
        m.deadline_ns == old(l).inflight@[0].deadline_ns,
        owed && pts_ns > 0 ==> m.capture_ns == pts_ns,
        !owed || pts_ns == 0 ==> m.capture_ns == old(l).inflight@[0].capture_ns,
        m.frame_index == old(l).st.au_seq,
        m.flags & w.pic == w.pic,
        tells(m.flags, w.sof, marks.keyframe),
        marks.recovery_point ==> m.flags & w.recovery_point == w.recovery_point,
        tells(m.flags, w.recovery_close, marks.recovery_close),
        tells(m.flags, w.recovery_anchor, marks.recovery_anchor),
        tells(m.flags, w.chunk_aligned, marks.chunk_aligned),
        m.anchor == marks.recovery_anchor,
        m.wave_start == (marks.recovery_point && !marks.recovery_close),
        final(l).inflight@.len() == old(l).inflight@.len() - 1,
        forall|i: int|
            0 <= i < final(l).inflight@.len() ==> #[trigger] final(l).inflight@[i] == old(l).inflight@[i + 1],
        final(l).st.encoder_resets == 0,
        final(l).st.last_au_ns == now_ns,
        final(l).st.next_ns == old(l).st.next_ns,
        final(l).st.au_seq == old(l).st.au_seq,
        final(l).st.sent == old(l).st.sent,
{
    lemma_flags(*w, *caps, old(l).st.ir_wave_pos, *marks);
}

/// A streamed unit goes out under one index: its first chunk sets the flags by its marks, the
/// others repeat what they are given, and only its last one counts it, moves the index on and
/// pays the frame. A first chunk while a unit is open leaves that unit's index behind.
pub proof fn a_streamed_unit_has_one_index(
    l: &mut EncodeLoop,
    w: &WireFlags,
    caps: &EncoderCaps,
    c: &ChunkInfo,
    flags: u32,
    owed: bool,
    now_ns: u64,
    m: AuMessage,
)
    requires
        bits_apart(*w),
        old(l).inflight@.len() > 0,
        old(l).st.sent < u64::MAX,
        call_ensures(EncodeLoop::on_chunk, (l, w, caps, c, flags, owed, now_ns), m),
    ensures
        c.first ==> {
            &&& m.flags & w.pic == w.pic
            &&& tells(m.flags, w.sof, c.marks.keyframe)
            &&& c.marks.recovery_point ==> m.flags & w.recovery_point == w.recovery_point
            &&& tells(m.flags, w.recovery_close, c.marks.recovery_close)
            &&& tells(m.flags, w.recovery_anchor, c.marks.recovery_anchor)
            &&& tells(m.flags, w.chunk_aligned, c.marks.chunk_aligned)
            &&& m.anchor == c.marks.recovery_anchor
        },
        !c.first ==> m.flags == flags && !m.anchor && !m.wave_start && m.frame_index == old(l).st.au_seq,
        c.first && !old(l).st.wire_frame_open ==> m.frame_index == old(l).st.au_seq,
        c.first && old(l).st.wire_frame_open ==> m.frame_index == old(l).st.au_seq.wrapping_add(1),
        final(l).st.wire_frame_open == !c.last,
        final(l).st.sent == old(l).st.sent + if c.last {
            1int
        } else {
            0
        },
        final(l).st.au_seq == if c.last {
            m.frame_index.wrapping_add(1)
        } else {
            m.frame_index
        },
        !(c.first && old(l).st.wire_frame_open) ==> {
            &&& m.submit_ns == old(l).inflight@[0].submit_ns
            &&& m.deadline_ns == old(l).inflight@[0].deadline_ns
            &&& final(l).inflight@.len() == old(l).inflight@.len() - if c.last {
                1int
            } else {
                0
            }
        },
        c.first && old(l).st.wire_frame_open && old(l).inflight@.len() > 1 ==> {
            &&& m.submit_ns == old(l).inflight@[1].submit_ns
            &&& m.deadline_ns == old(l).inflight@[1].deadline_ns
        },
        owed && c.pts_ns > 0 ==> m.capture_ns == c.pts_ns,
        final(l).st.encoder_resets == 0,
        final(l).st.last_au_ns == now_ns,
{
    lemma_flags(*w, *caps, old(l).st.ir_wave_pos, c.marks);
}

/// A drained unit is one the loop still owed, stamped with its times and the next index.
pub proof fn a_drained_unit_was_owed(
    l: &mut EncodeLoop,
    w: &WireFlags,
    keyframe: bool,
    m: Option<AuMessage>,
)
    requires
        bits_apart(*w),
        call_ensures(EncodeLoop::drain_next, (l, w, keyframe), m),
    ensures
        m is None <==> old(l).inflight@.len() == 0,
        m matches Some(u) ==> {
            &&& u.capture_ns == old(l).inflight@[0].capture_ns
            &&& u.submit_ns == old(l).inflight@[0].submit_ns
            &&& u.deadline_ns == old(l).inflight@[0].deadline_ns
            &&& u.frame_index == old(l).st.au_seq
            &&& u.flags & w.pic == w.pic
            &&& tells(u.flags, w.sof, keyframe)
            &&& !u.anchor && !u.wave_start
            &&& final(l).inflight@.len() == old(l).inflight@.len() - 1
        },
{
    let p = w.pic;
    let s = w.sof;
    assert((p | s) & p == p && (p | s) & s == s && p & p == p && (p & s == 0 ==> p & s == 0))
        by (bit_vector);
}

/// A submitted frame is owed behind every other, as often as the driver holds it, once for any
/// other encoder; it is due when the next tick is, an interval from its own.
pub proof fn a_submitted_frame_is_owed(
    l: &mut EncodeLoop,
    owed: Option<usize>,
    capture_ns: u64,
    submit_ns: u64,
    arrival_driven: bool,
    now_ns: u64,
)
    requires
        (if arrival_driven {
            now_ns
        } else {
            old(l).st.next_ns
        }) + old(l).st.interval_ns <= u64::MAX,
        call_ensures(
            EncodeLoop::submitted,
            (l, owed, capture_ns, submit_ns, arrival_driven, now_ns),
            (),
        ),
    ensures
        final(l).inflight@.len() == old(l).inflight@.len() + match owed {
            Some(n) => n as int,
            None => 1,
        },
        forall|i: int|
            0 <= i < old(l).inflight@.len() ==> #[trigger] final(l).inflight@[i] == old(l).inflight@[i],
        forall|i: int|
            old(l).inflight@.len() <= i < final(l).inflight@.len() ==> (#[trigger] final(l).inflight@[i]).capture_ns == capture_ns && final(l).inflight@[i].submit_ns == submit_ns
                && final(l).inflight@[i].deadline_ns == final(l).st.next_ns,
        arrival_driven ==> final(l).st.next_ns == now_ns + old(l).st.interval_ns,
        !arrival_driven ==> final(l).st.next_ns == old(l).st.next_ns + old(l).st.interval_ns,
        final(l).st.au_seq == old(l).st.au_seq,
        final(l).st.sent == old(l).st.sent,
{
}

/// An encoder is rebuilt at most [`MAX_ENCODER_RESETS`] times in a row; after that, and on an
/// error of configuration, the session ends. A unit that comes back starts the count over.
pub proof fn rebuilds_are_bounded(l: &mut EncodeLoop, terminal: bool, v: ResetVerdict)
    requires
        old(l).st.encoder_resets < u32::MAX,
        call_ensures(EncodeLoop::submit_failed, (l, terminal), v),
    ensures
        v == ResetVerdict::Rebuild ==> !terminal && final(l).st.encoder_resets
            <= MAX_ENCODER_RESETS && final(l).st.encoder_resets == old(l).st.encoder_resets + 1,
        v == ResetVerdict::GiveUp ==> terminal || old(l).st.encoder_resets >= MAX_ENCODER_RESETS,
        MAX_ENCODER_RESETS == 5,
{
}

/// A silent encoder is rebuilt, a talking one left alone: nothing owed is never a stall, a failed
/// poll always is one, and so is silence for the window and for eight intervals while a unit is
/// owed.
pub proof fn only_a_silent_encoder_is_rebuilt(
    l: &mut EncodeLoop,
    poll_failed: bool,
    depth: usize,
    stall_window_ns: u64,
    now_ns: u64,
    v: Option<ResetVerdict>,
)
    requires
        old(l).st.encoder_resets < u32::MAX,
        call_ensures(
            EncodeLoop::check_stall,
            (l, poll_failed, depth, stall_window_ns, now_ns),
            v,
        ),
    ensures
        poll_failed ==> v is Some,
        !poll_failed && old(l).inflight@.len() == 0 ==> v is None,
        old(l).inflight@.len() > 0 && now_ns - old(l).st.last_au_ns >= stall_window_ns && now_ns
            - old(l).st.last_au_ns >= 8 * old(l).st.interval_ns ==> v is Some,
        !poll_failed && old(l).inflight@.len() <= depth && 0 <= now_ns - old(l).st.last_au_ns
            < stall_window_ns ==> v is None,
        !poll_failed && old(l).inflight@.len() <= depth && 0 <= now_ns - old(l).st.last_au_ns < 8
            * old(l).st.interval_ns ==> v is None,
        v is None ==> final(l).st == old(l).st,
        v is Some ==> final(l).st.encoder_resets == old(l).st.encoder_resets + 1,
        v == Some(ResetVerdict::Rebuild) ==> final(l).st.encoder_resets <= MAX_ENCODER_RESETS,
        v == Some(ResetVerdict::GiveUp) ==> final(l).st.encoder_resets > MAX_ENCODER_RESETS,
        final(l).inflight@ == old(l).inflight@,
{
    let window = old(l).window_of(stall_window_ns);
    let step = if old(l).st.interval_ns < 1000 {
        1000
    } else {
        old(l).st.interval_ns as int
    };
    vstd::arithmetic::div_mod::lemma_div_pos_is_pos(window + step - 1, step);
}

/// A rebuilt encoder owes nothing, and the stall watch starts over.
pub proof fn a_rebuilt_encoder_owes_nothing(l: &mut EncodeLoop, now_ns: u64)
    requires
        call_ensures(EncodeLoop::rebuilt, (l, now_ns), ()),
    ensures
        final(l).inflight@.len() == 0,
        final(l).st.last_au_ns == now_ns,
        final(l).st.au_seq == old(l).st.au_seq,
        final(l).st.encoder_resets == old(l).st.encoder_resets,
{
}

/// Each failure waits twice as long as the one before it, from a tenth of a second to sixteen
/// tenths, and never less than a frame.
pub proof fn waits_double(l: &mut EncodeLoop, now_ns: u64, ns: u64, n: &mut EncodeLoop, later: u64)
    requires
        1 <= old(l).st.encoder_resets < 5,
        old(n).st.encoder_resets == old(l).st.encoder_resets + 1,
        old(n).st.interval_ns == old(l).st.interval_ns,
        now_ns + reset_backoff(old(l).st.encoder_resets, old(l).st.interval_ns) <= u64::MAX,
        call_ensures(EncodeLoop::back_off, (l, now_ns), ns),
        call_ensures(EncodeLoop::back_off, (n, now_ns), later),
    ensures
        ns >= old(l).st.interval_ns,
        100_000_000 <= ns,
        old(l).st.interval_ns <= ns / 2 ==> later == 2 * ns,
        old(l).st.encoder_resets == 4 && old(l).st.interval_ns <= 1_600_000_000 ==> later
            == 1_600_000_000,
        final(l).st.next_ns == now_ns + ns,
{
}

/// A capture stamp is kept only where it is believed: set, not in the future, under ten seconds
/// old, and of a fresh frame. Everything else is stamped with the submit.
pub proof fn only_a_believable_stamp_is_kept(
    pts_ns: u64,
    submit_ns: u64,
    repeat: bool,
    s: FrameStamp,
)
    requires
        call_ensures(stamp_frame, (pts_ns, submit_ns, repeat), s),
    ensures
        s.capture_ns <= submit_ns,
        submit_ns - s.capture_ns < 10_000_000_000,
        s.capture_ns == pts_ns || s.capture_ns == submit_ns,
        repeat || pts_ns == 0 || pts_ns > submit_ns || submit_ns - pts_ns >= 10_000_000_000
            ==> s.capture_ns == submit_ns,
        !repeat && 0 < pts_ns <= submit_ns && submit_ns - pts_ns < 10_000_000_000 ==> s.capture_ns
            == pts_ns,
        s.queue_us == (submit_ns - s.capture_ns) / 1000,
{
}

/// Metadata rides on every keyframe; a change is sent once more and then forgotten, and nothing
/// is sent without any.
pub proof fn a_change_of_metadata_is_sent_once(
    has_meta: bool,
    keyframe: bool,
    resend: &mut bool,
    send: bool,
)
    requires
        call_ensures(hdr_meta_due, (has_meta, keyframe, resend), send),
    ensures
        !has_meta ==> !send && *final(resend) == *old(resend),
        has_meta && keyframe ==> send,
        has_meta && *old(resend) ==> send,
        send ==> !*final(resend),
        !keyframe && !*old(resend) ==> !send,
{
}

/// The index told of a frame counts the units ahead of it.
pub proof fn a_frame_is_told_the_index_behind_what_is_owed(l: &EncodeLoop, i: u32)
    requires
        l.st.au_seq + l.inflight@.len() <= u32::MAX,
        call_ensures(EncodeLoop::wire_index, (l,), i),
    ensures
        i == l.st.au_seq + l.inflight@.len(),
{
}

/// A wave is closed by the last frame of its period and by no keyframe; a frame that closes none
/// is one further in it, and a keyframe or a close begins the next.
pub proof fn a_wave_is_closed_by_its_last_frame(
    pos: &mut u32,
    keyframe: bool,
    period: u32,
    mark: bool,
)
    requires
        keyframe || *old(pos) < u32::MAX,
        call_ensures(mark_recovery_boundary, (pos, keyframe, period), mark),
    ensures
        keyframe ==> !mark && *final(pos) == 0,
        !keyframe && *old(pos) + 1 < period ==> !mark && *final(pos) == *old(pos) + 1,
        !keyframe && *old(pos) + 1 >= period ==> mark && *final(pos) == 0,
{
}

/// A unit that was taken moves the index on by one, around the end of its range, and is counted;
/// nothing else moves.
pub proof fn a_taken_unit_is_counted(l: &mut EncodeLoop, m: &EncodeLoop, depth: usize, p: bool)
    requires
        old(l).wf(),
        old(l).st.sent < u64::MAX,
        call_ensures(EncodeLoop::delivered, (l,), ()),
        call_ensures(EncodeLoop::owes, (m, depth), p),
    ensures
        final(l).st.sent == old(l).st.sent + 1,
        old(l).st.au_seq < u32::MAX ==> final(l).st.au_seq == old(l).st.au_seq + 1,
        old(l).st.au_seq == u32::MAX ==> final(l).st.au_seq == 0,
        final(l).inflight@ == old(l).inflight@,
        final(l).st.next_ns == old(l).st.next_ns,
        final(l).st.ir_wave_pos == old(l).st.ir_wave_pos,
        p <==> m.inflight@.len() >= depth,
        depth == 0 ==> p,
{
}

/// A fresh frame is waited on for one interval from its submit, and a repeat not at all.
pub proof fn only_a_fresh_frame_is_waited_on(
    l: &EncodeLoop,
    submit_ns: u64,
    fresh: u64,
    repeat: u64,
)
    requires
        submit_ns + l.st.interval_ns <= u64::MAX,
        call_ensures(EncodeLoop::au_wait, (l, false, submit_ns), fresh),
        call_ensures(EncodeLoop::au_wait, (l, true, submit_ns), repeat),
    ensures
        fresh - submit_ns == l.st.interval_ns,
        repeat == submit_ns,
{
}

/// The tick sleeps up to its next time and keeps its grid; once that is past it does not sleep and
/// the grid begins again now.
pub proof fn a_late_tick_begins_again(l: &mut EncodeLoop, now_ns: u64, ns: Option<u64>)
    requires
        old(l).wf(),
        call_ensures(EncodeLoop::tick_sleep, (l, now_ns), ns),
    ensures
        ns matches Some(d) ==> now_ns + d == old(l).st.next_ns && final(l).st == old(l).st,
        ns is None <==> old(l).st.next_ns < now_ns,
        ns is None ==> final(l).st.next_ns == now_ns,
        final(l).st.interval_ns == old(l).st.interval_ns,
        final(l).inflight@ == old(l).inflight@,
{
}

/// A capture that waits for arrivals sleeps to nine tenths of an interval after the last one, or
/// longer while the bank is short, and then waits up to half an interval past its tick; with a
/// full frame banked it sleeps no longer than that.
pub proof fn a_capture_is_not_early(
    l: &EncodeLoop,
    credit: &mut CaptureCredit,
    capture_ns: u64,
    now_ns: u64,
    w: ArrivalWait,
)
    requires
        old(credit).wf(),
        call_ensures(EncodeLoop::arrival_wait, (l, credit, capture_ns, now_ns), w),
        capture_ns + l.st.interval_ns <= u64::MAX,
        l.st.next_ns + l.st.interval_ns <= u64::MAX,
    ensures
        now_ns + w.sleep_ns >= capture_ns + l.st.interval_ns * 9 / 10,
        final(credit).credit >= send_pacing::CREDIT_FRAME ==> now_ns + w.sleep_ns
            == send_pacing::most(now_ns as int, capture_ns + l.st.interval_ns * 9 / 10),
        w.until_ns == l.st.next_ns + l.st.interval_ns / 2,
        final(credit).last_ns == now_ns,
{
}

/// Each stage is told under its own name and in microseconds: the host's as they are, a driver's
/// from its own stamps, and its one time as encoding where it gave no more.
pub proof fn a_stage_is_told_under_its_name(
    encode_us: u32,
    queue_us: u32,
    host: AuStages,
    d: DriverSplit,
    lump: Option<u64>,
    split: AuStages,
    one: AuStages,
)
    requires
        call_ensures(AuStages::host, (encode_us, queue_us), host),
        call_ensures(AuStages::driver, (Some(d), lump), split),
        call_ensures(AuStages::driver, (None::<DriverSplit>, lump), one),
    ensures
        host.encode_us == encode_us && host.queue_us == queue_us && host.ipc_us == 0
            && !host.split,
        split.split && !one.split,
        d.encode_ns <= 4294967295999 ==> split.encode_us == d.encode_ns / 1000,
        d.encode_ns >= 4294967296000 ==> split.encode_us == 4294967295,
        d.ipc_ns <= 4294967295999 ==> split.ipc_us == d.ipc_ns / 1000,
        d.pool_ns matches Some(p) ==> (p <= 4294967295999 ==> split.queue_us == p / 1000),
        d.pool_ns is None ==> split.queue_us == 0,
        one.queue_us == 0 && one.ipc_us == 0,
        lump matches Some(n) ==> (n <= 4294967295999 ==> one.encode_us == n / 1000),
        lump is None ==> one.encode_us == 0,
{
}

/// A driver's units are drained one by one, and any other encoder's at the depth of the tick.
/// Mastering data is told only where the source has some, and is the client's where it told its
/// own.
pub proof fn a_source_without_data_tells_none<M>(
    depth: usize,
    held: usize,
    own: usize,
    source: M,
    client: Option<M>,
    with: Option<M>,
    without: Option<M>,
)
    requires
        call_ensures(poll_depth, (true, depth), held),
        call_ensures(poll_depth, (false, depth), own),
        call_ensures(hdr_for::<M>, (Some(source), client), with),
        call_ensures(hdr_for::<M>, (None::<M>, client), without),
    ensures
        held == 1,
        own == depth,
        without is None,
        client is Some ==> with == client,
        client is None ==> with == Some(source),
{
}

} // verus!
