//! Cadence watch and pipeline depth.
//!
//! Depth 1 by default: depth 2 holds a ready access unit a whole interval unpolled. A sustained
//! miss escalates to the capturer's depth, then to the encoder's pipelined retrieve; a clean run
//! winds back, with a growing backoff and no permanent latch.

use vstd::prelude::*;

verus! {

/// Net behind-frames that escalate.
pub const DEPTH_ESCALATE: u32 = 20;

/// Ceiling of the behind-score.
pub const DEPTH_BEHIND_CAP: u32 = 60;

/// Bring-up frames that are not judged.
pub const DEPTH_WARMUP_FRAMES: u64 = 60;

/// Net behind-frames at which climbs are refused.
pub const DEPTH_DEGRADE: u32 = 10;

/// Clean frames that earn one wind-back.
pub const DEESCALATE_CLEAN_FRAMES: u32 = 600;

pub const DEESCALATE_BACKOFF_START_NS: u64 = 60_000_000_000;

pub const DEESCALATE_BACKOFF_MAX_NS: u64 = 1_500_000_000_000;

/// The encoder is behind: by the degrade score, or by anything at all while escalated.
pub fn encode_behind_cadence(escalated: bool, behind_score: u32, degrade_at: u32) -> (b: bool)
    ensures
        b == (behind_score >= degrade_at || (escalated && behind_score > 0)),
{
    behind_score >= degrade_at || (escalated && behind_score > 0)
}

/// `v` held between `lo` and `hi`.
pub open spec fn clamped(v: int, lo: int, hi: int) -> int {
    if v < lo {
        lo
    } else if v > hi {
        hi
    } else {
        v
    }
}

/// The time a frame really has: the observed source period, held to one to four intervals.
pub open spec fn budget_of(interval_ns: u64, src_period_ns: Option<u64>) -> int {
    match src_period_ns {
        Some(p) => clamped(p as int, interval_ns as int, 4 * interval_ns),
        None => interval_ns as int,
    }
}

/// The time a frame really has. Without an estimate, one interval.
pub fn cadence_budget(interval_ns: u64, src_period_ns: Option<u64>) -> (ns: u64)
    requires
        interval_ns * 4 <= u64::MAX,
    ensures
        ns == budget_of(interval_ns, src_period_ns),
{
    match src_period_ns {
        Some(p) => {
            if p < interval_ns {
                interval_ns
            } else if p > interval_ns * 4 {
                interval_ns * 4
            } else {
                p
            }
        },
        None => interval_ns,
    }
}

/// The source-period estimate after a gap of `gap_ns` between two source frames: an eighth of the
/// way towards it. A gap past eight intervals is a hitch, not cadence.
pub open spec fn period_after(estimate: Option<u64>, gap_ns: u64, interval_ns: u64) -> Option<u64> {
    if gap_ns > 8 * interval_ns {
        estimate
    } else {
        match estimate {
            None => Some(gap_ns),
            Some(e) => if gap_ns >= e {
                Some((e + (gap_ns - e) / 8) as u64)
            } else {
                Some((e - (e - gap_ns) / 8) as u64)
            },
        }
    }
}

/// Folds one gap between source frames into the estimate.
pub fn observe_period(estimate: Option<u64>, gap_ns: u64, interval_ns: u64) -> (r: Option<u64>)
    ensures
        r == period_after(estimate, gap_ns, interval_ns),
{
    if gap_ns as u128 > interval_ns as u128 * 8 {
        return estimate;
    }
    match estimate {
        None => Some(gap_ns),
        Some(e) => {
            if gap_ns >= e {
                Some(e + (gap_ns - e) / 8)
            } else {
                Some(e - (e - gap_ns) / 8)
            }
        },
    }
}

/// The estimate never leaves the range of what was there and what was seen.
pub proof fn the_estimate_stays_between(e: u64, gap_ns: u64, interval_ns: u64)
    ensures
        period_after(Some(e), gap_ns, interval_ns) matches Some(r) && (e <= r <= gap_ns || gap_ns
            <= r <= e || (gap_ns > 8 * interval_ns && r == e)),
{
}

/// The adaptation's memory.
#[derive(Clone, Copy, Debug, PartialEq, Eq, Structural)]
pub struct DepthState {
    pub cur_depth: usize,
    pub frames: u64,
    pub behind_score: u32,
    pub pipelined_active: bool,
    /// The encoder was asked to pipeline in this escalation.
    pub pipeline_asked: bool,
    /// A wind-back of the pipelined retrieve is under way.
    pub deescalating: bool,
    /// Clean frames in a row while escalated.
    pub ahead_run: u32,
    pub not_before_ns: Option<u64>,
    pub backoff_ns: u64,
}

/// What is asked of the encoder.
#[derive(Clone, Copy, Debug, PartialEq, Eq, Structural)]
pub enum PipelineAsk {
    Nothing,
    On,
    Off,
}

/// What one judged frame decides.
#[derive(Clone, Copy, Debug, PartialEq, Eq, Structural)]
pub struct DepthStep {
    /// Publish this verdict and the score; `None` while warming up or switched off.
    pub degraded: Option<bool>,
    pub ask: PipelineAsk,
}

/// What a tick is judged by.
#[derive(Clone, Copy, Debug, PartialEq, Eq, Structural)]
pub struct TickTiming {
    pub now_ns: u64,
    /// When the next tick is due.
    pub next_ns: u64,
    pub interval_ns: u64,
    pub src_period_ns: Option<u64>,
}

impl TickTiming {
    /// The tick ended later than the next one's due time plus the slack the source leaves.
    pub open spec fn behind(self) -> bool {
        self.now_ns >= self.next_ns + (budget_of(self.interval_ns, self.src_period_ns)
            - self.interval_ns)
    }
}

pub open spec fn depth_at_least_one(d: usize) -> usize {
    if d == 0 {
        1
    } else {
        d
    }
}

impl DepthState {
    pub open spec fn wf(self) -> bool {
        &&& self.behind_score <= DEPTH_BEHIND_CAP
        &&& self.cur_depth >= 1
        &&& DEESCALATE_BACKOFF_START_NS <= self.backoff_ns <= DEESCALATE_BACKOFF_MAX_NS
        &&& self.deescalating ==> self.pipelined_active
    }

    /// More than the default is in use.
    pub open spec fn escalated(self) -> bool {
        self.cur_depth > 1 || self.pipelined_active || self.deescalating
    }

    /// The score after a frame.
    pub open spec fn scored(self, behind: bool) -> u32 {
        if behind {
            clamped(self.behind_score + 1, 0, DEPTH_BEHIND_CAP as int) as u32
        } else {
            clamped(self.behind_score - 1, 0, DEPTH_BEHIND_CAP as int) as u32
        }
    }

    pub fn new() -> (d: DepthState)
        ensures
            d.wf(),
            d == (DepthState {
                cur_depth: 1,
                frames: 0,
                behind_score: 0,
                pipelined_active: false,
                pipeline_asked: false,
                deescalating: false,
                ahead_run: 0,
                not_before_ns: None,
                backoff_ns: DEESCALATE_BACKOFF_START_NS,
            }),
    {
        DepthState {
            cur_depth: 1,
            frames: 0,
            behind_score: 0,
            pipelined_active: false,
            pipeline_asked: false,
            deescalating: false,
            ahead_run: 0,
            not_before_ns: None,
            backoff_ns: DEESCALATE_BACKOFF_START_NS,
        }
    }

    /// The state with this frame counted and scored.
    pub open spec fn judged(self, behind: bool) -> DepthState {
        DepthState {
            frames: (self.frames + 1) as u64,
            behind_score: self.scored(behind),
            ..self
        }
    }

    /// A clean run is long enough, and the backoff of the last wind-back is over.
    pub open spec fn may_wind_back(self, run: int, now_ns: u64) -> bool {
        run >= DEESCALATE_CLEAN_FRAMES && (self.not_before_ns is None || now_ns
            >= self.not_before_ns->0)
    }

    /// The next wind-back's backoff: five times as long, up to the ceiling.
    pub open spec fn next_backoff(self) -> int {
        clamped(5 * self.backoff_ns, 0, DEESCALATE_BACKOFF_MAX_NS as int)
    }

    /// The state after a judged frame, before the encoder has answered an ask.
    pub open spec fn adapted(self, t: TickTiming, max_depth: usize) -> DepthState {
        let behind = t.behind();
        let j = self.judged(behind);
        if j.deescalating {
            j
        } else if j.behind_score >= DEPTH_ESCALATE && (j.cur_depth < max_depth
            || !j.pipeline_asked) {
            DepthState {
                cur_depth: if j.cur_depth < max_depth {
                    max_depth
                } else {
                    j.cur_depth
                },
                pipeline_asked: j.pipeline_asked || j.cur_depth >= max_depth,
                behind_score: 0,
                ahead_run: 0,
                ..j
            }
        } else if j.escalated() {
            let run = if behind {
                0
            } else {
                j.ahead_run + 1
            };
            if j.may_wind_back(run, t.now_ns) {
                let w = DepthState {
                    ahead_run: 0,
                    not_before_ns: Some((t.now_ns + j.backoff_ns) as u64),
                    backoff_ns: j.next_backoff() as u64,
                    ..j
                };
                if j.pipelined_active {
                    DepthState { deescalating: true, ..w }
                } else {
                    DepthState { cur_depth: 1, behind_score: 0, frames: 0, ..w }
                }
            } else {
                DepthState { ahead_run: run as u32, ..j }
            }
        } else {
            j
        }
    }

    /// What the encoder is asked after a judged frame.
    pub open spec fn asks(self, t: TickTiming, max_depth: usize) -> PipelineAsk {
        let j = self.judged(t.behind());
        if j.deescalating {
            PipelineAsk::Off
        } else if j.behind_score >= DEPTH_ESCALATE && j.cur_depth >= max_depth
            && !j.pipeline_asked {
            PipelineAsk::On
        } else {
            PipelineAsk::Nothing
        }
    }

    /// Judges one frame. `enabled` off pins the capturer's full depth and judges nothing.
    pub fn adapt(&mut self, enabled: bool, capturer_depth: usize, t: &TickTiming) -> (step:
        DepthStep)
        requires
            old(self).wf(),
            old(self).frames < u64::MAX,
            old(self).ahead_run < u32::MAX,
            t.interval_ns * 4 <= u64::MAX,
            t.now_ns + old(self).backoff_ns <= u64::MAX,
        ensures
            final(self).wf(),
            !enabled ==> *final(self) == *old(self) && step == (DepthStep {
                degraded: None,
                ask: PipelineAsk::Nothing,
            }),
            enabled && old(self).frames < DEPTH_WARMUP_FRAMES ==> *final(self) == (DepthState {
                frames: (old(self).frames + 1) as u64,
                ..*old(self)
            }) && step == (DepthStep { degraded: None, ask: PipelineAsk::Nothing }),
            enabled && old(self).frames >= DEPTH_WARMUP_FRAMES ==> {
                let max_depth = depth_at_least_one(capturer_depth);
                let score = old(self).scored(t.behind());
                &&& *final(self) == old(self).adapted(*t, max_depth)
                &&& step == (DepthStep {
                    degraded: Some(score >= DEPTH_DEGRADE || (old(self).escalated() && score > 0)),
                    ask: old(self).asks(*t, max_depth),
                })
            },
    {
        if !enabled {
            return DepthStep { degraded: None, ask: PipelineAsk::Nothing };
        }
        self.frames = self.frames + 1;
        if self.frames <= DEPTH_WARMUP_FRAMES {
            return DepthStep { degraded: None, ask: PipelineAsk::Nothing };
        }
        let max_depth: usize = if capturer_depth == 0 {
            1
        } else {
            capturer_depth
        };
        let budget: u64 = cadence_budget(t.interval_ns, t.src_period_ns);
        let slack: u64 = budget - t.interval_ns;
        let behind: bool = t.now_ns as u128 >= t.next_ns as u128 + slack as u128;
        self.behind_score = if behind {
            if self.behind_score < DEPTH_BEHIND_CAP {
                self.behind_score + 1
            } else {
                DEPTH_BEHIND_CAP
            }
        } else {
            self.behind_score.saturating_sub(1)
        };
        let escalated: bool = self.cur_depth > 1 || self.pipelined_active || self.deescalating;
        let degraded: bool = encode_behind_cadence(escalated, self.behind_score, DEPTH_DEGRADE);
        let mut ask: PipelineAsk = PipelineAsk::Nothing;
        if self.deescalating {
            ask = PipelineAsk::Off;
        } else if self.behind_score >= DEPTH_ESCALATE && (self.cur_depth < max_depth
            || !self.pipeline_asked) {
            if self.cur_depth < max_depth {
                self.cur_depth = max_depth;
            } else {
                self.pipeline_asked = true;
                ask = PipelineAsk::On;
            }
            self.behind_score = 0;
            self.ahead_run = 0;
        } else if escalated {
            self.ahead_run = if behind {
                0
            } else {
                self.ahead_run + 1
            };
            let rested: bool = match self.not_before_ns {
                Some(at) => t.now_ns >= at,
                None => true,
            };
            if self.ahead_run >= DEESCALATE_CLEAN_FRAMES && rested {
                self.ahead_run = 0;
                self.not_before_ns = Some(t.now_ns + self.backoff_ns);
                self.backoff_ns = if self.backoff_ns * 5 < DEESCALATE_BACKOFF_MAX_NS {
                    self.backoff_ns * 5
                } else {
                    DEESCALATE_BACKOFF_MAX_NS
                };
                if self.pipelined_active {
                    self.deescalating = true;
                } else if self.cur_depth > 1 {
                    self.cur_depth = 1;
                    self.behind_score = 0;
                    self.frames = 0;
                }
            }
        }
        DepthStep { degraded: Some(degraded), ask }
    }

    /// Books the encoder's answer to an ask: whether it now pipelines. A wind-back is over once
    /// it does not.
    pub fn answered(&mut self, ask: PipelineAsk, pipelined: bool)
        requires
            old(self).wf(),
            ask == PipelineAsk::Off ==> old(self).deescalating,
            ask == PipelineAsk::On ==> !old(self).deescalating,
        ensures
            final(self).wf(),
            *final(self) == match ask {
                PipelineAsk::Nothing => *old(self),
                PipelineAsk::On => DepthState { pipelined_active: pipelined, ..*old(self) },
                PipelineAsk::Off => if pipelined {
                    *old(self)
                } else {
                    DepthState {
                        deescalating: false,
                        pipelined_active: false,
                        pipeline_asked: false,
                        behind_score: 0,
                        frames: 0,
                        ahead_run: 0,
                        ..*old(self)
                    }
                },
            },
    {
        match ask {
            PipelineAsk::Nothing => {},
            PipelineAsk::On => {
                self.pipelined_active = pipelined;
            },
            PipelineAsk::Off => {
                if !pipelined {
                    self.deescalating = false;
                    self.pipelined_active = false;
                    self.pipeline_asked = false;
                    self.behind_score = 0;
                    self.frames = 0;
                    self.ahead_run = 0;
                }
            },
        }
    }

    /// The depth a tick runs at: the current one held to the capturer's, or the capturer's full
    /// depth when adaptation is off.
    pub fn depth(&self, enabled: bool, capturer_depth: usize) -> (d: usize)
        ensures
            d == if enabled {
                clamped(self.cur_depth as int, 1, depth_at_least_one(capturer_depth) as int)
            } else {
                depth_at_least_one(capturer_depth) as int
            },
    {
        let max_depth: usize = if capturer_depth == 0 {
            1
        } else {
            capturer_depth
        };
        if !enabled {
            max_depth
        } else if self.cur_depth < 1 {
            1
        } else if self.cur_depth > max_depth {
            max_depth
        } else {
            self.cur_depth
        }
    }
}

/// An escalation is never a permanent latch: the backoff between wind-backs stays within its
/// ceiling, and a clean run that has waited it out always winds something back.
pub proof fn an_escalation_winds_back(d: DepthState, t: TickTiming, max_depth: usize)
    requires
        d.wf(),
        d.frames >= DEPTH_WARMUP_FRAMES,
        d.escalated(),
        !d.deescalating,
        !t.behind(),
        d.behind_score <= DEPTH_ESCALATE || (d.cur_depth >= max_depth && d.pipeline_asked),
        d.ahead_run + 1 >= DEESCALATE_CLEAN_FRAMES,
        d.not_before_ns is None || t.now_ns >= d.not_before_ns->0,
    ensures
        ({
            let n = d.adapted(t, max_depth);
            &&& n.backoff_ns <= DEESCALATE_BACKOFF_MAX_NS
            &&& d.pipelined_active ==> n.deescalating
            &&& !d.pipelined_active ==> n.cur_depth == 1
        }),
{
}

/// A caught-up encoder stops refusing climbs, escalated or not.
pub proof fn a_caught_up_encoder_is_not_degraded(d: DepthState, t: TickTiming)
    requires
        d.wf(),
        d.behind_score <= 1,
        !t.behind(),
    ensures
        d.scored(t.behind()) == 0,
{
}

/// The encoder is behind by the score it is held to, and by anything at all while more than the
/// default is in use; a clean score never is, unless the bar is nothing.
pub proof fn behind_is_by_the_score(escalated: bool, score: u32, bar: u32, b: bool)
    requires
        call_ensures(encode_behind_cadence, (escalated, score, bar), b),
    ensures
        score >= bar ==> b,
        escalated && score > 0 ==> b,
        b ==> score >= bar || (escalated && score > 0),
{
}

/// A frame has the time its source leaves it: never less than an interval, never more than four,
/// and an interval where nothing is known.
pub proof fn a_frame_has_the_time_its_source_leaves(
    interval_ns: u64,
    period: Option<u64>,
    ns: u64,
)
    requires
        interval_ns * 4 <= u64::MAX,
        call_ensures(cadence_budget, (interval_ns, period), ns),
    ensures
        interval_ns <= ns <= 4 * interval_ns,
        period is None ==> ns == interval_ns,
        period matches Some(p) ==> (interval_ns <= p <= 4 * interval_ns ==> ns == p) && (p
            < interval_ns ==> ns == interval_ns) && (p > 4 * interval_ns ==> ns == 4 * interval_ns),
{
}

/// The estimate moves an eighth of the way to a gap; the first gap is the estimate, and a hitch of
/// over eight intervals is none.
pub proof fn the_estimate_moves_an_eighth(
    e: Option<u64>,
    gap_ns: u64,
    interval_ns: u64,
    r: Option<u64>,
)
    requires
        call_ensures(observe_period, (e, gap_ns, interval_ns), r),
    ensures
        gap_ns > 8 * interval_ns ==> r == e,
        gap_ns <= 8 * interval_ns ==> r is Some,
        gap_ns <= 8 * interval_ns && e is None ==> r == Some(gap_ns),
        gap_ns <= 8 * interval_ns && (e matches Some(x) && x <= gap_ns) ==> 8 * (r->0 - e->0)
            <= gap_ns - e->0 < 8 * (r->0 - e->0) + 8,
        gap_ns <= 8 * interval_ns && (e matches Some(x) && x > gap_ns) ==> 8 * (e->0 - r->0) <= e->0
            - gap_ns < 8 * (e->0 - r->0) + 8,
{
}

/// The session begins at depth one, judged by nothing.
pub proof fn a_session_begins_at_depth_one(d: DepthState, enabled: bool, capturer: usize, depth: usize)
    requires
        call_ensures(DepthState::new, (), d),
        call_ensures(DepthState::depth, (&d, enabled, capturer), depth),
    ensures
        d.wf(),
        d.behind_score == 0 && d.frames == 0 && !d.pipelined_active && !d.pipeline_asked
            && !d.deescalating,
        d.not_before_ns is None,
        enabled ==> depth == 1,
        !enabled && capturer > 0 ==> depth == capturer,
        !enabled && capturer == 0 ==> depth == 1,
{
}

/// A tick never runs deeper than the capturer can, nor shallower than one; with adaptation off it
/// runs as deep as the capturer can.
pub proof fn a_depth_fits_the_capturer(d: &DepthState, enabled: bool, capturer: usize, depth: usize)
    requires
        call_ensures(DepthState::depth, (d, enabled, capturer), depth),
    ensures
        depth >= 1,
        capturer >= 1 ==> depth <= capturer,
        enabled && 1 <= d.cur_depth <= capturer ==> depth == d.cur_depth,
        enabled && d.cur_depth > capturer && capturer >= 1 ==> depth == capturer,
        !enabled && capturer >= 1 ==> depth == capturer,
{
}

/// Nothing is judged while adaptation is off or the stream warms up for its first sixty frames.
pub proof fn a_warming_stream_is_not_judged(
    d: &mut DepthState,
    enabled: bool,
    capturer: usize,
    t: &TickTiming,
    step: DepthStep,
)
    requires
        old(d).wf(),
        call_ensures(DepthState::adapt, (d, enabled, capturer, t), step),
        !enabled || old(d).frames < 60,
    ensures
        step.degraded is None && step.ask == PipelineAsk::Nothing,
        final(d).cur_depth == old(d).cur_depth && final(d).behind_score == old(d).behind_score,
        !enabled ==> *final(d) == *old(d),
{
}

/// A judged frame moves the score by one: up when the tick ended after the next was due and the
/// slack its source leaves, down when not. A score of ten, or any while escalated, refuses climbs.
pub proof fn a_frame_moves_the_score_by_one(
    d: &mut DepthState,
    capturer: usize,
    t: &TickTiming,
    step: DepthStep,
    budget: u64,
)
    requires
        old(d).wf(),
        old(d).frames >= 60,
        t.interval_ns * 4 <= u64::MAX,
        call_ensures(DepthState::adapt, (d, true, capturer, t), step),
        call_ensures(cadence_budget, (t.interval_ns, t.src_period_ns), budget),
    ensures
        ({
            let late = t.now_ns >= t.next_ns + (budget - t.interval_ns);
            let score = if late {
                if old(d).behind_score < 60 {
                    old(d).behind_score + 1
                } else {
                    60
                }
            } else if old(d).behind_score > 0 {
                old(d).behind_score - 1
            } else {
                0
            };
            &&& final(d).behind_score == score || final(d).behind_score == 0
            &&& score < 20 && !(final(d).cur_depth == 1 && old(d).cur_depth > 1) ==> final(
                d).behind_score == score
            &&& step.degraded == Some(
                score >= 10 || (score > 0 && (old(d).cur_depth > 1 || old(d).pipelined_active
                    || old(d).deescalating)),
            )
        }),
{
}

/// A sustained miss goes deeper first and pipelines next, a clean run of six hundred frames winds
/// one step back, no sooner than the wait from the last time; and the depth moves for nothing else.
pub proof fn a_depth_moves_for_cause(
    d: &mut DepthState,
    capturer: usize,
    t: &TickTiming,
    step: DepthStep,
)
    requires
        old(d).wf(),
        old(d).frames >= 60,
        old(d).frames < u64::MAX,
        old(d).ahead_run < u32::MAX,
        capturer >= 1,
        t.now_ns + old(d).backoff_ns <= u64::MAX,
        call_ensures(DepthState::adapt, (d, true, capturer, t), step),
    ensures
        final(d).cur_depth > old(d).cur_depth ==> final(d).cur_depth == capturer && old(
            d).behind_score >= 19 && t.behind() || old(d).behind_score >= 20,
        final(d).cur_depth < old(d).cur_depth ==> final(d).cur_depth == 1 && old(d).ahead_run
            >= 599 && !t.behind() && !old(d).pipelined_active && (old(d).not_before_ns matches Some(
            at,
        ) ==> t.now_ns >= at),
        step.ask == PipelineAsk::On ==> old(d).cur_depth >= capturer && !old(d).pipeline_asked
            && old(d).behind_score >= 19 && final(d).pipeline_asked,
        step.ask == PipelineAsk::Off <==> old(d).deescalating,
        final(d).deescalating && !old(d).deescalating ==> old(d).pipelined_active && old(d).ahead_run
            >= 599 && !t.behind(),
        !old(d).deescalating && t.behind() && old(d).behind_score >= 19 && old(d).cur_depth
            < capturer ==> final(d).cur_depth == capturer,
        !old(d).deescalating && t.behind() && old(d).behind_score >= 19 && old(d).cur_depth
            >= capturer && !old(d).pipeline_asked ==> step.ask == PipelineAsk::On,
        final(d).backoff_ns != old(d).backoff_ns ==> final(d).backoff_ns == 5 * old(d).backoff_ns
            || final(d).backoff_ns == 1_500_000_000_000,
        final(d).not_before_ns != old(d).not_before_ns ==> final(d).not_before_ns == Some(
            (t.now_ns + old(d).backoff_ns) as u64,
        ),
        60_000_000_000 <= final(d).backoff_ns <= 1_500_000_000_000,
{
}

/// An encoder that answers is believed: it pipelines or not as it says, and a wind-back is over
/// once it does not.
pub proof fn an_answer_is_believed(d: &mut DepthState, ask: PipelineAsk, pipelined: bool)
    requires
        old(d).wf(),
        call_ensures(DepthState::answered, (d, ask, pipelined), ()),
    ensures
        ask == PipelineAsk::Nothing ==> *final(d) == *old(d),
        ask == PipelineAsk::On ==> final(d).pipelined_active == pipelined && final(d).cur_depth
            == old(d).cur_depth,
        ask == PipelineAsk::Off && pipelined ==> *final(d) == *old(d),
        ask == PipelineAsk::Off && !pipelined ==> !final(d).deescalating && !final(
            d).pipelined_active && !final(d).pipeline_asked && final(d).behind_score == 0,
        final(d).backoff_ns == old(d).backoff_ns && final(d).not_before_ns == old(d).not_before_ns,
{
}

} // verus!
