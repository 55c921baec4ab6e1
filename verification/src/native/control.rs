//! The mid-stream control task: what each client request and each host-side lane does to the
//! session, and what is written back.
//!
//! The task is the control stream's only writer. The caller decodes messages, owns the channels
//! and performs the actions in order; this module decides.

use vstd::prelude::*;

verus! {

/// Backstop against mode-switch spam: half the client's own 1 s limit.
pub const MIN_SWITCH_INTERVAL_NS: u64 = 500_000_000;

/// One speed test per 10 s: without a count cap a client can pause video and pin the uplink.
pub const MIN_PROBE_INTERVAL_NS: u64 = 10_000_000_000;

/// A display mode.
#[derive(Clone, Copy, Debug, PartialEq, Eq, Structural)]
pub struct Mode {
    pub width: u32,
    pub height: u32,
    pub refresh_hz: u32,
}

/// The bits and reason codes of the clipboard and grant fields on the wire.
#[derive(Clone, Copy, Debug, PartialEq, Eq, Structural)]
pub struct ClipWire {
    pub grant_clipboard: u32,
    pub policy_files: u8,
    pub flag_files: u8,
    pub reason_ok: u8,
    pub reason_policy_disabled: u8,
    pub reason_not_permitted: u8,
    pub reason_backend_unavailable: u8,
    pub reason_no_files: u8,
}

/// A client's clipboard request.
#[derive(Clone, Copy, Debug, PartialEq, Eq, Structural)]
pub struct ClipControl {
    pub enabled: bool,
    pub flags: u8,
}

/// What the host answers to a clipboard request.
#[derive(Clone, Copy, Debug, PartialEq, Eq, Structural)]
pub struct ClipState {
    pub enabled: bool,
    pub policy: u8,
    pub reason: u8,
}

/// Operator policy first (`None` is off), then the device's grant, then the backend. A grant
/// refusal still reports the operator's policy bits.
pub open spec fn clip_answer(
    w: ClipWire,
    policy: Option<u8>,
    granted: bool,
    available: bool,
    ctl: ClipControl,
) -> ClipState {
    match policy {
        None => ClipState { enabled: false, policy: 0, reason: w.reason_policy_disabled },
        Some(p) => ClipState {
            enabled: granted && available && ctl.enabled,
            policy: p,
            reason: if !granted {
                w.reason_not_permitted
            } else if ctl.enabled && !available {
                w.reason_backend_unavailable
            } else if ctl.flags & w.flag_files != 0 && p & w.policy_files == 0 {
                w.reason_no_files
            } else {
                w.reason_ok
            },
        },
    }
}

/// Resolves a clipboard request.
pub fn resolve_clip_control(
    w: &ClipWire,
    policy: Option<u8>,
    granted: bool,
    clip_available: bool,
    ctl: ClipControl,
) -> (s: ClipState)
    ensures
        s == clip_answer(*w, policy, granted, clip_available, ctl),
{
    match policy {
        None => ClipState { enabled: false, policy: 0, reason: w.reason_policy_disabled },
        Some(p) => {
            if !granted {
                ClipState { enabled: false, policy: p, reason: w.reason_not_permitted }
            } else if ctl.enabled && !clip_available {
                ClipState { enabled: false, policy: p, reason: w.reason_backend_unavailable }
            } else {
                let files_ok: bool = p & w.policy_files != 0;
                let wants_files: bool = ctl.flags & w.flag_files != 0;
                let reason: u8 = if wants_files && !files_ok {
                    w.reason_no_files
                } else {
                    w.reason_ok
                };
                ClipState { enabled: ctl.enabled, policy: p, reason }
            }
        },
    }
}

/// A client's selection may be installed: the live grant holds and sync is on.
pub fn clip_offer_permitted(w: &ClipWire, grants: u32, clip_enabled: bool) -> (ok: bool)
    ensures
        ok == (grants & w.grant_clipboard != 0 && clip_enabled),
{
    grants & w.grant_clipboard != 0 && clip_enabled
}

/// What a session's control task was started with.
#[derive(Clone, Copy, Debug, PartialEq, Eq, Structural)]
pub struct ControlCfg {
    /// The backend can switch modes mid-stream.
    pub live_reconfig_ok: bool,
    /// Parity follows the loss reports; otherwise it is pinned.
    pub adaptive_fec: bool,
    /// The codec runs at a pinned rate and takes no retarget.
    pub pinned_rate: bool,
    pub session_bitrate_kbps: u32,
    /// The host has a clipboard backend.
    pub clip_available: bool,
    pub wire: ClipWire,
}

/// Lanes the task listens on besides the control stream.
#[derive(Clone, Copy, Debug, PartialEq, Eq, Structural)]
pub enum Lane {
    ProbeResult,
    ShardChange,
    CursorShape,
    LaunchOutcome,
    AudioState,
    PadSlots,
    Access,
    ClipOffer,
    Retarget,
    Gap,
    Correction,
}

/// Values other threads publish, as they stand when an event is handled.
#[derive(Clone, Copy, Debug, PartialEq, Eq, Structural)]
pub struct Live {
    pub now_ns: u64,
    /// The rate the encoder runs at; 0 before it is known.
    pub bitrate_kbps: u32,
    /// The codec's discovered ceiling; 0 when none was.
    pub ceiling_kbps: u32,
    /// The encoder misses its cadence.
    pub cadence_degraded: bool,
    pub fec_pct: u8,
    pub grants: u32,
    /// The operator's clipboard policy.
    pub clip_policy: Option<u8>,
    /// Clipboard sync is on.
    pub clip_enabled: bool,
}

/// One thing that happened.
#[derive(Clone, Copy, Debug, PartialEq, Eq, Structural)]
pub enum Event {
    /// The control stream closed or broke.
    StreamClosed,
    /// A mode switch; `valid` when refresh and dimensions pass the encoder's bounds.
    Reconfigure { mode: Mode, valid: bool },
    RequestKeyframe,
    Rfi { first: u32, last: u32 },
    Delivery { packets_received: u64 },
    /// A loss report; `unrecovered_run` counts the windows with losses parity could not repair,
    /// `target_pct` is the parity that answers it.
    Loss { loss_ppm: u32, unrecovered_run: u32, target_pct: u8 },
    /// A bitrate request; `resolved_kbps` is the request held to the session's bounds.
    SetBitrate { requested_kbps: u32, resolved_kbps: u32 },
    ShardAck { shard_payload: u16 },
    Probe,
    Clock { t1_ns: u64 },
    Phase,
    CursorMode { client_draws: bool },
    Clip { ctl: ClipControl },
    RemoteOffer,
    Unknown,
    /// Every sender of a lane is gone.
    LaneClosed { lane: Lane },
    /// A message that is written to the client as it is.
    Message { lane: Lane },
    /// The cursor lane fired without a shape.
    NoShape,
    AccessUpdate { grants: u32 },
    /// The host announces its own clipboard.
    HostOffer,
    Retargeted { kbps: u32 },
    PipelineGap { gap_ms: u32 },
    /// The mode that is really live after a rebuild.
    Corrected { accepted: bool, mode: Mode },
    /// A minute has passed.
    LinkTick,
}

/// One thing to do.
#[derive(Clone, Copy, Debug, PartialEq, Eq, Structural)]
pub enum Action {
    WriteReconfigured { accepted: bool, mode: Mode },
    WriteBitrateChanged { kbps: u32 },
    WriteClockEcho { t1_ns: u64 },
    WriteClipState { state: ClipState },
    WritePipelineGap { gap_ms: u32 },
    /// Write the event's own message.
    WriteMessage,
    SwitchMode { mode: Mode },
    ForceKeyframe,
    Invalidate { first: u32, last: u32 },
    SetBitrate { kbps: u32 },
    StartProbe,
    StoreReceived { packets: u32 },
    StoreFec { pct: u8 },
    StoreCursorMode { client_draws: bool },
    StorePhase,
    AckShard { shard_payload: u16 },
    /// Publish whether clipboard sync is on.
    StoreClipEnabled { enabled: bool },
    /// Tell the clipboard coordinator: enabling announces the host's clipboard, disabling drops
    /// the selection the client installed.
    SetClipboard { enabled: bool },
    InstallOffer,
    NoteDenied,
    NoteKeyframeRequest,
    NoteRfi,
    NoteLoss { loss_ppm: u32, unrecovered_run: u32 },
    SampleBands { fec_pct: u8, kbps: u32 },
    NoteBitrateAsk { asked_kbps: u32, live_kbps: u32 },
    NoteGap,
    EmitLink,
}

impl Action {
    /// The session ends when this cannot be done: a write to the client, or a hand-over to a
    /// data-plane thread. The rest is bookkeeping or reaches a lane that may have ended.
    pub open spec fn is_vital(self) -> bool {
        match self {
            Action::WriteReconfigured { .. } => true,
            Action::WriteBitrateChanged { .. } => true,
            Action::WriteClockEcho { .. } => true,
            Action::WriteClipState { .. } => true,
            Action::WritePipelineGap { .. } => true,
            Action::WriteMessage => true,
            Action::SwitchMode { .. } => true,
            Action::ForceKeyframe => true,
            Action::Invalidate { .. } => true,
            Action::SetBitrate { .. } => true,
            Action::StartProbe => true,
            _ => false,
        }
    }

    pub fn vital(&self) -> (v: bool)
        ensures
            v == self.is_vital(),
    {
        match self {
            Action::WriteReconfigured { .. } => true,
            Action::WriteBitrateChanged { .. } => true,
            Action::WriteClockEcho { .. } => true,
            Action::WriteClipState { .. } => true,
            Action::WritePipelineGap { .. } => true,
            Action::WriteMessage => true,
            Action::SwitchMode { .. } => true,
            Action::ForceKeyframe => true,
            Action::Invalidate { .. } => true,
            Action::SetBitrate { .. } => true,
            Action::StartProbe => true,
            _ => false,
        }
    }
}

/// What the task remembers between events.
#[derive(Clone, Copy, Debug, PartialEq, Eq, Structural)]
pub struct ControlState {
    pub active: Mode,
    pub last_switch_ns: Option<u64>,
    pub last_probe_ns: Option<u64>,
    pub shard_change_closed: bool,
    pub launch_outcome_closed: bool,
    pub audio_closed: bool,
    pub pad_slots_closed: bool,
    pub access_closed: bool,
    pub clip_offer_closed: bool,
    pub ended: bool,
}

/// `now_ns` is less than `gap_ns` after `then_ns`.
pub open spec fn within(then_ns: Option<u64>, now_ns: u64, gap_ns: u64) -> bool {
    then_ns is Some && now_ns - then_ns->0 < gap_ns
}

/// A switch is granted: the backend can, the mode is valid, the last one is long enough ago.
pub open spec fn switch_granted(c: ControlCfg, s: ControlState, valid: bool, now_ns: u64) -> bool {
    c.live_reconfig_ok && valid && !within(s.last_switch_ns, now_ns, MIN_SWITCH_INTERVAL_NS)
}

/// The rate a request is answered with: the pinned rate of a pinned codec; else the resolved
/// rate, never past a known ceiling, and never a climb while the encoder misses its cadence.
pub open spec fn granted_kbps(c: ControlCfg, v: Live, resolved_kbps: u32) -> u32 {
    if c.pinned_rate {
        c.session_bitrate_kbps
    } else {
        let r = if v.ceiling_kbps != 0 && resolved_kbps > v.ceiling_kbps {
            v.ceiling_kbps
        } else {
            resolved_kbps
        };
        if v.cadence_degraded && v.bitrate_kbps != 0 && r > v.bitrate_kbps {
            v.bitrate_kbps
        } else {
            r
        }
    }
}

/// A lane whose senders may go away while the session lives.
pub open spec fn may_close(lane: Lane) -> bool {
    lane == Lane::ShardChange || lane == Lane::LaunchOutcome || lane == Lane::AudioState || lane
        == Lane::PadSlots || lane == Lane::Access || lane == Lane::ClipOffer
}

impl ControlState {
    /// The task still listens on `lane`. A closed lane is ready forever and would spin.
    pub open spec fn listens(self, lane: Lane) -> bool {
        match lane {
            Lane::ShardChange => !self.shard_change_closed,
            Lane::LaunchOutcome => !self.launch_outcome_closed,
            Lane::AudioState => !self.audio_closed,
            Lane::PadSlots => !self.pad_slots_closed,
            Lane::Access => !self.access_closed,
            Lane::ClipOffer => !self.clip_offer_closed,
            _ => true,
        }
    }

    pub fn polls(&self, lane: Lane) -> (p: bool)
        ensures
            p == self.listens(lane),
    {
        match lane {
            Lane::ShardChange => !self.shard_change_closed,
            Lane::LaunchOutcome => !self.launch_outcome_closed,
            Lane::AudioState => !self.audio_closed,
            Lane::PadSlots => !self.pad_slots_closed,
            Lane::Access => !self.access_closed,
            Lane::ClipOffer => !self.clip_offer_closed,
            _ => true,
        }
    }

    /// The state once `lane` has closed: that lane is no longer listened on, or the session is
    /// over when it needs the lane.
    pub open spec fn without(self, lane: Lane) -> ControlState {
        match lane {
            Lane::ShardChange => ControlState { shard_change_closed: true, ..self },
            Lane::LaunchOutcome => ControlState { launch_outcome_closed: true, ..self },
            Lane::AudioState => ControlState { audio_closed: true, ..self },
            Lane::PadSlots => ControlState { pad_slots_closed: true, ..self },
            Lane::Access => ControlState { access_closed: true, ..self },
            Lane::ClipOffer => ControlState { clip_offer_closed: true, ..self },
            _ => ControlState { ended: true, ..self },
        }
    }

    pub fn new(initial: Mode) -> (s: ControlState)
        ensures
            s == (ControlState {
                active: initial,
                last_switch_ns: None,
                last_probe_ns: None,
                shard_change_closed: false,
                launch_outcome_closed: false,
                audio_closed: false,
                pad_slots_closed: false,
                access_closed: false,
                clip_offer_closed: false,
                ended: false,
            }),
    {
        ControlState {
            active: initial,
            last_switch_ns: None,
            last_probe_ns: None,
            shard_change_closed: false,
            launch_outcome_closed: false,
            audio_closed: false,
            pad_slots_closed: false,
            access_closed: false,
            clip_offer_closed: false,
            ended: false,
        }
    }
}

/// The state after an event.
pub open spec fn next_state(c: ControlCfg, v: Live, s: ControlState, e: Event) -> ControlState {
    match e {
        Event::StreamClosed => ControlState { ended: true, ..s },
        Event::Reconfigure { mode, valid } => if switch_granted(c, s, valid, v.now_ns) {
            ControlState { active: mode, last_switch_ns: Some(v.now_ns), ..s }
        } else {
            s
        },
        Event::Probe => if within(s.last_probe_ns, v.now_ns, MIN_PROBE_INTERVAL_NS) {
            s
        } else {
            ControlState { last_probe_ns: Some(v.now_ns), ..s }
        },
        Event::LaneClosed { lane } => s.without(lane),
        Event::Corrected { mode, .. } => ControlState { active: mode, ..s },
        _ => s,
    }
}

/// What an event has done, in order.
pub open spec fn actions(c: ControlCfg, v: Live, s: ControlState, e: Event) -> Seq<Action> {
    match e {
        Event::Reconfigure { mode, valid } => if switch_granted(c, s, valid, v.now_ns) {
            seq![
                Action::WriteReconfigured { accepted: true, mode },
                Action::SwitchMode { mode },
            ]
        } else {
            seq![Action::WriteReconfigured { accepted: false, mode: s.active }]
        },
        Event::RequestKeyframe => seq![Action::NoteKeyframeRequest, Action::ForceKeyframe],
        Event::Rfi { first, last } => seq![Action::NoteRfi, Action::Invalidate { first, last }],
        Event::Delivery { packets_received } => seq![
            Action::StoreReceived {
                packets: if packets_received >= u32::MAX {
                    (u32::MAX - 1) as u32
                } else {
                    packets_received as u32
                },
            },
        ],
        Event::Loss { loss_ppm, unrecovered_run, target_pct } => seq![
            Action::NoteLoss { loss_ppm, unrecovered_run },
            Action::SampleBands { fec_pct: v.fec_pct, kbps: v.bitrate_kbps },
        ] + if c.adaptive_fec {
            seq![Action::StoreFec { pct: target_pct }]
        } else {
            seq![]
        },
        Event::SetBitrate { requested_kbps, resolved_kbps } => seq![
            Action::NoteBitrateAsk { asked_kbps: requested_kbps, live_kbps: v.bitrate_kbps },
            Action::WriteBitrateChanged { kbps: granted_kbps(c, v, resolved_kbps) },
            Action::SetBitrate { kbps: granted_kbps(c, v, resolved_kbps) },
        ],
        Event::ShardAck { shard_payload } => seq![Action::AckShard { shard_payload }],
        Event::Probe => if within(s.last_probe_ns, v.now_ns, MIN_PROBE_INTERVAL_NS) {
            seq![]
        } else {
            seq![Action::StartProbe]
        },
        Event::Clock { t1_ns } => seq![Action::WriteClockEcho { t1_ns }],
        Event::Phase => seq![Action::StorePhase],
        Event::CursorMode { client_draws } => seq![Action::StoreCursorMode { client_draws }],
        Event::Clip { ctl } => {
            let state = clip_answer(
                c.wire,
                v.clip_policy,
                v.grants & c.wire.grant_clipboard != 0,
                c.clip_available,
                ctl,
            );
            seq![
                Action::StoreClipEnabled { enabled: state.enabled },
                Action::SetClipboard { enabled: state.enabled },
                Action::WriteClipState { state },
            ]
        },
        Event::RemoteOffer => if v.grants & c.wire.grant_clipboard != 0 && v.clip_enabled {
            seq![Action::InstallOffer]
        } else {
            seq![Action::NoteDenied]
        },
        Event::Message { .. } => seq![Action::WriteMessage],
        Event::AccessUpdate { grants } => if grants & c.wire.grant_clipboard == 0 {
            seq![Action::SetClipboard { enabled: false }, Action::WriteMessage]
        } else {
            seq![Action::WriteMessage]
        },
        Event::HostOffer => if v.clip_enabled {
            seq![Action::WriteMessage]
        } else {
            seq![]
        },
        Event::Retargeted { kbps } => seq![Action::WriteBitrateChanged { kbps }],
        Event::PipelineGap { gap_ms } => seq![
            Action::NoteGap,
            Action::WritePipelineGap { gap_ms },
        ],
        Event::Corrected { accepted, mode } => seq![
            Action::WriteReconfigured { accepted, mode },
        ],
        Event::LinkTick => seq![Action::EmitLink],
        Event::StreamClosed => seq![],
        Event::Unknown => seq![],
        Event::NoShape => seq![],
        Event::LaneClosed { .. } => seq![],
    }
}

fn recent(then_ns: Option<u64>, now_ns: u64, gap_ns: u64) -> (r: bool)
    requires
        gap_ns > 0,
    ensures
        r == within(then_ns, now_ns, gap_ns),
{
    match then_ns {
        Some(t) => now_ns.saturating_sub(t) < gap_ns,
        None => false,
    }
}

impl ControlState {
    fn answer_bitrate(c: &ControlCfg, v: &Live, resolved_kbps: u32) -> (kbps: u32)
        ensures
            kbps == granted_kbps(*c, *v, resolved_kbps),
    {
        if c.pinned_rate {
            return c.session_bitrate_kbps;
        }
        let mut r: u32 = resolved_kbps;
        if v.ceiling_kbps != 0 && r > v.ceiling_kbps {
            r = v.ceiling_kbps;
        }
        if v.cadence_degraded && v.bitrate_kbps != 0 && r > v.bitrate_kbps {
            r = v.bitrate_kbps;
        }
        r
    }

    fn close(&mut self, lane: Lane)
        ensures
            *final(self) == old(self).without(lane),
    {
        match lane {
            Lane::ShardChange => {
                self.shard_change_closed = true;
            },
            Lane::LaunchOutcome => {
                self.launch_outcome_closed = true;
            },
            Lane::AudioState => {
                self.audio_closed = true;
            },
            Lane::PadSlots => {
                self.pad_slots_closed = true;
            },
            Lane::Access => {
                self.access_closed = true;
            },
            Lane::ClipOffer => {
                self.clip_offer_closed = true;
            },
            _ => {
                self.ended = true;
            },
        }
    }

    /// Handles one event. The actions are to be done in order; the session is over when `ended`
    /// is set or a vital action fails.
    pub fn step(&mut self, c: &ControlCfg, v: &Live, e: Event) -> (out: Vec<Action>)
        ensures
            *final(self) == next_state(*c, *v, *old(self), e),
            out@ == actions(*c, *v, *old(self), e),
    {
        let mut out: Vec<Action> = Vec::new();
        match e {
            Event::StreamClosed => {
                self.ended = true;
            },
            Event::Reconfigure { mode, valid } => {
                let too_soon: bool = recent(self.last_switch_ns, v.now_ns, MIN_SWITCH_INTERVAL_NS);
                let ok: bool = c.live_reconfig_ok && valid && !too_soon;
                if ok {
                    self.active = mode;
                    self.last_switch_ns = Some(v.now_ns);
                }
                out.push(Action::WriteReconfigured { accepted: ok, mode: self.active });
                if ok {
                    out.push(Action::SwitchMode { mode });
                }
            },
            Event::RequestKeyframe => {
                out.push(Action::NoteKeyframeRequest);
                out.push(Action::ForceKeyframe);
            },
            Event::Rfi { first, last } => {
                out.push(Action::NoteRfi);
                out.push(Action::Invalidate { first, last });
            },
            Event::Delivery { packets_received } => {
                let packets: u32 = if packets_received >= u32::MAX as u64 {
                    u32::MAX - 1
                } else {
                    packets_received as u32
                };
                out.push(Action::StoreReceived { packets });
            },
            Event::Loss { loss_ppm, unrecovered_run, target_pct } => {
                out.push(Action::NoteLoss { loss_ppm, unrecovered_run });
                out.push(Action::SampleBands { fec_pct: v.fec_pct, kbps: v.bitrate_kbps });
                if c.adaptive_fec {
                    out.push(Action::StoreFec { pct: target_pct });
                }
            },
            Event::SetBitrate { requested_kbps, resolved_kbps } => {
                out.push(
                    Action::NoteBitrateAsk {
                        asked_kbps: requested_kbps,
                        live_kbps: v.bitrate_kbps,
                    },
                );
                let kbps: u32 = Self::answer_bitrate(c, v, resolved_kbps);
                out.push(Action::WriteBitrateChanged { kbps });
                out.push(Action::SetBitrate { kbps });
            },
            Event::ShardAck { shard_payload } => {
                out.push(Action::AckShard { shard_payload });
            },
            Event::Probe => {
                if !recent(self.last_probe_ns, v.now_ns, MIN_PROBE_INTERVAL_NS) {
                    self.last_probe_ns = Some(v.now_ns);
                    out.push(Action::StartProbe);
                }
            },
            Event::Clock { t1_ns } => {
                out.push(Action::WriteClockEcho { t1_ns });
            },
            Event::Phase => {
                out.push(Action::StorePhase);
            },
            Event::CursorMode { client_draws } => {
                out.push(Action::StoreCursorMode { client_draws });
            },
            Event::Clip { ctl } => {
                let granted: bool = v.grants & c.wire.grant_clipboard != 0;
                let state: ClipState = resolve_clip_control(
                    &c.wire,
                    v.clip_policy,
                    granted,
                    c.clip_available,
                    ctl,
                );
                out.push(Action::StoreClipEnabled { enabled: state.enabled });
                out.push(Action::SetClipboard { enabled: state.enabled });
                out.push(Action::WriteClipState { state });
            },
            Event::RemoteOffer => {
                if clip_offer_permitted(&c.wire, v.grants, v.clip_enabled) {
                    out.push(Action::InstallOffer);
                } else {
                    out.push(Action::NoteDenied);
                }
            },
            Event::Unknown => {},
            Event::LaneClosed { lane } => {
                self.close(lane);
            },
            Event::Message { .. } => {
                out.push(Action::WriteMessage);
            },
            Event::NoShape => {},
            Event::AccessUpdate { grants } => {
                if grants & c.wire.grant_clipboard == 0 {
                    out.push(Action::SetClipboard { enabled: false });
                }
                out.push(Action::WriteMessage);
            },
            Event::HostOffer => {
                if v.clip_enabled {
                    out.push(Action::WriteMessage);
                }
            },
            Event::Retargeted { kbps } => {
                out.push(Action::WriteBitrateChanged { kbps });
            },
            Event::PipelineGap { gap_ms } => {
                out.push(Action::NoteGap);
                out.push(Action::WritePipelineGap { gap_ms });
            },
            Event::Corrected { accepted, mode } => {
                self.active = mode;
                out.push(Action::WriteReconfigured { accepted, mode });
            },
            Event::LinkTick => {
                out.push(Action::EmitLink);
            },
        }
        out
    }
}

/// Every answer to a mode switch names the mode that is live afterwards, and a refusal leaves the
/// session as it was.
pub proof fn a_switch_answer_names_the_live_mode(
    c: ControlCfg,
    v: Live,
    s: ControlState,
    mode: Mode,
    valid: bool,
)
    ensures
        ({
            let e = Event::Reconfigure { mode, valid };
            let s2 = next_state(c, v, s, e);
            let first = actions(c, v, s, e)[0];
            &&& first == (Action::WriteReconfigured {
                accepted: switch_granted(c, s, valid, v.now_ns),
                mode: s2.active,
            })
            &&& !switch_granted(c, s, valid, v.now_ns) ==> s2 == s && actions(c, v, s, e).len()
                == 1
        }),
{
}

/// The state after a run of events, each with the values published when it came.
pub open spec fn run(c: ControlCfg, s: ControlState, events: Seq<(Live, Event)>) -> ControlState
    decreases events.len(),
{
    if events.len() == 0 {
        s
    } else {
        next_state(c, events.last().0, run(c, s, events.drop_last()), events.last().1)
    }
}

/// The `k`-th event of a run is a mode switch that is granted.
pub open spec fn switches_at(
    c: ControlCfg,
    s: ControlState,
    events: Seq<(Live, Event)>,
    k: int,
) -> bool {
    events[k].1 matches Event::Reconfigure { valid, .. } && switch_granted(
        c,
        run(c, s, events.take(k)),
        valid,
        events[k].0.now_ns,
    )
}

/// The `k`-th event of a run is a speed test that is started.
pub open spec fn probes_at(
    c: ControlCfg,
    s: ControlState,
    events: Seq<(Live, Event)>,
    k: int,
) -> bool {
    events[k].1 is Probe && !within(
        run(c, s, events.take(k)).last_probe_ns,
        events[k].0.now_ns,
        MIN_PROBE_INTERVAL_NS,
    )
}

/// Time does not run backwards over a run.
pub open spec fn in_order(events: Seq<(Live, Event)>) -> bool {
    forall|a: int, b: int|
        0 <= a <= b < events.len() ==> events[a].0.now_ns <= events[b].0.now_ns
}

proof fn lemma_run_step(c: ControlCfg, s: ControlState, events: Seq<(Live, Event)>, k: int)
    requires
        0 <= k < events.len(),
    ensures
        run(c, s, events.take(k + 1)) == next_state(
            c,
            events[k].0,
            run(c, s, events.take(k)),
            events[k].1,
        ),
{
    assert(events.take(k + 1).drop_last() =~= events.take(k));
}

proof fn lemma_last_switch(
    c: ControlCfg,
    s: ControlState,
    events: Seq<(Live, Event)>,
    i: int,
    k: int,
)
    requires
        in_order(events),
        0 <= i < k <= events.len(),
        switches_at(c, s, events, i),
    ensures
        run(c, s, events.take(k)).last_switch_ns matches Some(t) && t >= events[i].0.now_ns,
    decreases k,
{
    lemma_run_step(c, s, events, k - 1);
    if k > i + 1 {
        lemma_last_switch(c, s, events, i, k - 1);
    }
}

proof fn lemma_last_probe(
    c: ControlCfg,
    s: ControlState,
    events: Seq<(Live, Event)>,
    i: int,
    k: int,
)
    requires
        in_order(events),
        0 <= i < k <= events.len(),
        probes_at(c, s, events, i),
    ensures
        run(c, s, events.take(k)).last_probe_ns matches Some(t) && t >= events[i].0.now_ns,
    decreases k,
{
    lemma_run_step(c, s, events, k - 1);
    if k > i + 1 {
        lemma_last_probe(c, s, events, i, k - 1);
    }
}

/// Over any run of events, two granted mode switches lie at least [`MIN_SWITCH_INTERVAL_NS`]
/// apart.
pub proof fn switches_are_spaced(
    c: ControlCfg,
    s: ControlState,
    events: Seq<(Live, Event)>,
    i: int,
    j: int,
)
    requires
        in_order(events),
        0 <= i < j < events.len(),
        switches_at(c, s, events, i),
        switches_at(c, s, events, j),
    ensures
        events[j].0.now_ns - events[i].0.now_ns >= MIN_SWITCH_INTERVAL_NS,
{
    lemma_last_switch(c, s, events, i, j);
}

/// Over any run of events, two started speed tests lie at least [`MIN_PROBE_INTERVAL_NS`] apart.
pub proof fn probes_are_spaced(
    c: ControlCfg,
    s: ControlState,
    events: Seq<(Live, Event)>,
    i: int,
    j: int,
)
    requires
        in_order(events),
        0 <= i < j < events.len(),
        probes_at(c, s, events, i),
        probes_at(c, s, events, j),
    ensures
        events[j].0.now_ns - events[i].0.now_ns >= MIN_PROBE_INTERVAL_NS,
{
    lemma_last_probe(c, s, events, i, j);
}

/// The acknowledged rate is never past a known ceiling, and never a climb while the encoder
/// misses its cadence; it is only ever lowered from what was resolved.
pub proof fn an_acked_rate_is_one_the_encoder_will_run(c: ControlCfg, v: Live, resolved_kbps: u32)
    requires
        !c.pinned_rate,
    ensures
        granted_kbps(c, v, resolved_kbps) <= resolved_kbps,
        v.ceiling_kbps != 0 ==> granted_kbps(c, v, resolved_kbps) <= v.ceiling_kbps,
        v.cadence_degraded && v.bitrate_kbps != 0 ==> granted_kbps(c, v, resolved_kbps)
            <= v.bitrate_kbps,
        !v.cadence_degraded && v.ceiling_kbps == 0 ==> granted_kbps(c, v, resolved_kbps)
            == resolved_kbps,
{
}

/// A closed lane stays closed, and closing a lane that may close does not end the session; any
/// other one does.
pub proof fn a_closed_lane_is_not_polled_again(
    c: ControlCfg,
    v: Live,
    s: ControlState,
    lane: Lane,
    e: Event,
)
    ensures
        may_close(lane) ==> !s.without(lane).listens(lane) && s.without(lane).ended == s.ended,
        !may_close(lane) ==> s.without(lane).ended,
        !s.listens(lane) ==> !next_state(c, v, s, e).listens(lane),
        s.ended ==> next_state(c, v, s, e).ended,
{
}

/// Without the clipboard grant nothing of the client's reaches the host clipboard: a request is
/// answered disabled, and an offer is dropped.
pub proof fn no_grant_no_clipboard(c: ControlCfg, v: Live, s: ControlState, ctl: ClipControl)
    requires
        v.grants & c.wire.grant_clipboard == 0,
    ensures
        actions(c, v, s, Event::Clip { ctl })[0] == (Action::StoreClipEnabled { enabled: false }),
        actions(c, v, s, Event::Clip { ctl })[1] == (Action::SetClipboard { enabled: false }),
        actions(c, v, s, Event::RemoteOffer) == seq![Action::NoteDenied],
{
}

/// An action occurs exactly once among those of an event.
pub open spec fn once(out: Seq<Action>, a: Action) -> bool {
    exists|i: int|
        0 <= i < out.len() && #[trigger] out[i] == a && forall|j: int|
            0 <= j < out.len() && #[trigger] out[j] == a ==> j == i
}

/// A request for a keyframe is answered with one, and nothing else forces one; a range of lost
/// frames is invalidated as it was named. Neither changes the session.
pub proof fn a_recovery_request_is_carried_out(
    s: &mut ControlState,
    c: &ControlCfg,
    v: &Live,
    e: Event,
    out: Vec<Action>,
)
    requires
        call_ensures(ControlState::step, (s, c, v, e), out),
    ensures
        e == Event::RequestKeyframe ==> once(out@, Action::ForceKeyframe) && once(
            out@,
            Action::NoteKeyframeRequest,
        ),
        out@.contains(Action::ForceKeyframe) ==> e == Event::RequestKeyframe,
        e matches Event::Rfi { first, last } ==> once(out@, Action::Invalidate { first, last })
            && once(out@, Action::NoteRfi),
        forall|first: u32, last: u32|
            #[trigger] out@.contains(Action::Invalidate { first, last }) ==> e == (Event::Rfi {
                first,
                last,
            }),
        e == Event::RequestKeyframe || e is Rfi ==> *final(s) == *old(s),
{
    if e == Event::RequestKeyframe {
        assert(out@[1] == Action::ForceKeyframe);
        assert(out@[0] == Action::NoteKeyframeRequest);
    }
    if let Event::Rfi { first, last } = e {
        assert(out@[1] == (Action::Invalidate { first, last }));
        assert(out@[0] == Action::NoteRfi);
    }
}

/// A mode switch is carried out and answered together: it happens exactly where the backend can,
/// the mode is valid and the last one lies half a second back; then the mode asked for is the live
/// one and the answer says so. A refusal names the mode that stays, and nothing but a switch or a
/// correction moves the live mode.
pub proof fn a_switch_is_done_as_it_is_answered(
    s: &mut ControlState,
    c: &ControlCfg,
    v: &Live,
    e: Event,
    out: Vec<Action>,
)
    requires
        call_ensures(ControlState::step, (s, c, v, e), out),
    ensures
        e matches Event::Reconfigure { mode, valid } ==> {
            let may = c.live_reconfig_ok && valid && (old(s).last_switch_ns matches Some(t)
                ==> v.now_ns - t >= 500_000_000);
            &&& may ==> final(s).active == mode && final(s).last_switch_ns == Some(v.now_ns)
                && once(out@, Action::SwitchMode { mode }) && once(
                out@,
                Action::WriteReconfigured { accepted: true, mode },
            )
            &&& !may ==> *final(s) == *old(s) && out@.len() == 1 && once(
                out@,
                Action::WriteReconfigured { accepted: false, mode: old(s).active },
            )
        },
        forall|i: int|
            0 <= i < out@.len() ==> {
                &&& (#[trigger] out@[i]) matches Action::SwitchMode { mode } ==> (e matches
                    Event::Reconfigure { mode: asked, .. } && asked == mode) && final(s).active
                    == mode
                &&& out@[i] matches Action::WriteReconfigured { mode, .. } ==> final(s).active
                    == mode
            },
        e matches Event::Corrected { accepted, mode } ==> final(s).active == mode && once(
            out@,
            Action::WriteReconfigured { accepted, mode },
        ),
        !(e is Reconfigure) && !(e is Corrected) ==> final(s).active == old(s).active
            && final(s).last_switch_ns == old(s).last_switch_ns,
{
    if let Event::Reconfigure { mode, valid } = e {
        if switch_granted(*c, *old(s), valid, v.now_ns) {
            assert(out@[0] == (Action::WriteReconfigured { accepted: true, mode }));
            assert(out@[1] == (Action::SwitchMode { mode }));
        } else {
            assert(out@[0] == (Action::WriteReconfigured { accepted: false, mode: old(s).active }));
        }
    }
    if let Event::Corrected { accepted, mode } = e {
        assert(out@[0] == (Action::WriteReconfigured { accepted, mode }));
    }
}

/// A rate is set as it is acknowledged: a pinned codec keeps its rate; otherwise the request is
/// answered with the highest rate that is no higher than what was resolved, than a known ceiling,
/// and, while the encoder misses its cadence, than the rate it runs at. A rate the host chose is
/// told as it is, and no other event sets one.
pub proof fn a_rate_is_set_as_it_is_acknowledged(
    s: &mut ControlState,
    c: &ControlCfg,
    v: &Live,
    e: Event,
    out: Vec<Action>,
)
    requires
        call_ensures(ControlState::step, (s, c, v, e), out),
    ensures
        e matches Event::SetBitrate { requested_kbps, resolved_kbps } ==> exists|kbps: u32| {
            &&& #[trigger] once(out@, Action::SetBitrate { kbps })
            &&& once(out@, Action::WriteBitrateChanged { kbps })
            &&& once(
                out@,
                Action::NoteBitrateAsk { asked_kbps: requested_kbps, live_kbps: v.bitrate_kbps },
            )
            &&& c.pinned_rate ==> kbps == c.session_bitrate_kbps
            &&& !c.pinned_rate ==> kbps <= resolved_kbps && (v.ceiling_kbps != 0 ==> kbps
                <= v.ceiling_kbps) && (v.cadence_degraded && v.bitrate_kbps != 0 ==> kbps
                <= v.bitrate_kbps)
            &&& !c.pinned_rate ==> kbps == resolved_kbps || (v.ceiling_kbps != 0 && kbps
                == v.ceiling_kbps) || (v.cadence_degraded && v.bitrate_kbps != 0 && kbps
                == v.bitrate_kbps)
        },
        e matches Event::Retargeted { kbps } ==> out@.len() == 1 && once(
            out@,
            Action::WriteBitrateChanged { kbps },
        ),
        forall|i: int|
            0 <= i < out@.len() ==> {
                &&& (#[trigger] out@[i]) is SetBitrate ==> e is SetBitrate
                &&& out@[i] is WriteBitrateChanged ==> e is SetBitrate || e is Retargeted
            },
        e is SetBitrate || e is Retargeted ==> *final(s) == *old(s),
{
    if let Event::SetBitrate { requested_kbps, resolved_kbps } = e {
        let kbps = granted_kbps(*c, *v, resolved_kbps);
        assert(out@[2] == (Action::SetBitrate { kbps }));
        assert(out@[1] == (Action::WriteBitrateChanged { kbps }));
        assert(out@[0] == (Action::NoteBitrateAsk {
            asked_kbps: requested_kbps,
            live_kbps: v.bitrate_kbps,
        }));
        assert(once(out@, Action::SetBitrate { kbps }));
    }
    if let Event::Retargeted { kbps } = e {
        assert(out@[0] == (Action::WriteBitrateChanged { kbps }));
    }
}

/// A speed test starts when none has for ten seconds and is booked; one asked for sooner is
/// dropped, and nothing else starts or books one.
pub proof fn a_speed_test_starts_every_ten_seconds(
    s: &mut ControlState,
    c: &ControlCfg,
    v: &Live,
    e: Event,
    out: Vec<Action>,
)
    requires
        call_ensures(ControlState::step, (s, c, v, e), out),
    ensures
        out@.contains(Action::StartProbe) <==> e == Event::Probe && (old(s).last_probe_ns matches
            Some(t) ==> v.now_ns - t >= 10_000_000_000),
        out@.contains(Action::StartProbe) ==> final(s).last_probe_ns == Some(v.now_ns) && out@.len()
            == 1,
        !out@.contains(Action::StartProbe) ==> final(s).last_probe_ns == old(s).last_probe_ns,
{
    if e == Event::Probe && !within(old(s).last_probe_ns, v.now_ns, MIN_PROBE_INTERVAL_NS) {
        assert(out@[0] == Action::StartProbe);
    }
}

/// What a client reports is kept as it was reported: what arrived (held under the mark that means
/// nothing was told), the losses, the parity they ask for where parity follows them, the payload
/// it takes, its clock, and who draws the cursor.
pub proof fn reports_are_kept_as_they_come(
    s: &mut ControlState,
    c: &ControlCfg,
    v: &Live,
    e: Event,
    out: Vec<Action>,
)
    requires
        call_ensures(ControlState::step, (s, c, v, e), out),
    ensures
        e matches Event::Delivery { packets_received } ==> out@.len() == 1 && (out@[0] matches
            Action::StoreReceived { packets } && packets < u32::MAX && packets <= packets_received
            && (packets == packets_received || packets == u32::MAX - 1)),
        e matches Event::Loss { loss_ppm, unrecovered_run, target_pct } ==> {
            &&& once(out@, Action::NoteLoss { loss_ppm, unrecovered_run })
            &&& once(out@, Action::SampleBands { fec_pct: v.fec_pct, kbps: v.bitrate_kbps })
            &&& c.adaptive_fec ==> once(out@, Action::StoreFec { pct: target_pct })
        },
        forall|i: int|
            0 <= i < out@.len() ==> ((#[trigger] out@[i]) is StoreFec ==> e is Loss
                && c.adaptive_fec),
        e matches Event::ShardAck { shard_payload } ==> out@.len() == 1 && once(
            out@,
            Action::AckShard { shard_payload },
        ),
        e matches Event::Clock { t1_ns } ==> out@.len() == 1 && once(
            out@,
            Action::WriteClockEcho { t1_ns },
        ),
        e == Event::Phase ==> out@.len() == 1 && once(out@, Action::StorePhase),
        e matches Event::CursorMode { client_draws } ==> out@.len() == 1 && once(
            out@,
            Action::StoreCursorMode { client_draws },
        ),
        e matches Event::PipelineGap { gap_ms } ==> once(out@, Action::WritePipelineGap { gap_ms })
            && once(out@, Action::NoteGap),
        e == Event::LinkTick ==> out@.len() == 1 && once(out@, Action::EmitLink),
        e is Message ==> out@.len() == 1 && once(out@, Action::WriteMessage),
        e == Event::Unknown || e == Event::NoShape ==> out@.len() == 0 && *final(s) == *old(s),
{
    match e {
        Event::Loss { loss_ppm, unrecovered_run, target_pct } => {
            assert(out@[0] == (Action::NoteLoss { loss_ppm, unrecovered_run }));
            assert(out@[1] == (Action::SampleBands { fec_pct: v.fec_pct, kbps: v.bitrate_kbps }));
            if c.adaptive_fec {
                assert(out@[2] == (Action::StoreFec { pct: target_pct }));
            }
        },
        Event::ShardAck { shard_payload } => {
            assert(out@[0] == (Action::AckShard { shard_payload }));
        },
        Event::Clock { t1_ns } => {
            assert(out@[0] == (Action::WriteClockEcho { t1_ns }));
        },
        Event::Phase => {
            assert(out@[0] == Action::StorePhase);
        },
        Event::CursorMode { client_draws } => {
            assert(out@[0] == (Action::StoreCursorMode { client_draws }));
        },
        Event::PipelineGap { gap_ms } => {
            assert(out@[0] == Action::NoteGap);
            assert(out@[1] == (Action::WritePipelineGap { gap_ms }));
        },
        Event::LinkTick => {
            assert(out@[0] == Action::EmitLink);
        },
        Event::Message { .. } => {
            assert(out@[0] == Action::WriteMessage);
        },
        _ => {},
    }
}

/// The clipboard follows policy, grant and backend: a request turns it on exactly where the
/// operator allows it, the device may, the host can and the client asked; the coordinator, the
/// published value and the answer agree. An offer is installed only while the grant holds and sync
/// is on, and is otherwise denied. A device that loses the grant loses the clipboard, and the
/// host's own is announced only while sync is on.
pub proof fn the_clipboard_follows_policy_and_grant(
    s: &mut ControlState,
    c: &ControlCfg,
    v: &Live,
    e: Event,
    out: Vec<Action>,
)
    requires
        call_ensures(ControlState::step, (s, c, v, e), out),
    ensures
        e matches Event::Clip { ctl } ==> {
            let on = v.clip_policy is Some && v.grants & c.wire.grant_clipboard != 0
                && c.clip_available && ctl.enabled;
            &&& once(out@, Action::StoreClipEnabled { enabled: on })
            &&& once(out@, Action::SetClipboard { enabled: on })
            &&& exists|i: int|
                0 <= i < out@.len() && #[trigger] out@[i] is WriteClipState
                    && out@[i]->state.enabled == on && (v.clip_policy matches Some(p)
                    ==> out@[i]->state.policy == p)
        },
        out@.contains(Action::InstallOffer) <==> e == Event::RemoteOffer && v.grants
            & c.wire.grant_clipboard != 0 && v.clip_enabled,
        e == Event::RemoteOffer ==> (out@.contains(Action::NoteDenied) <==> !out@.contains(
            Action::InstallOffer,
        )),
        e matches Event::AccessUpdate { grants } ==> once(out@, Action::WriteMessage) && (
        out@.contains(Action::SetClipboard { enabled: false }) <==> grants
            & c.wire.grant_clipboard == 0) && !out@.contains(Action::SetClipboard { enabled: true }),
        e == Event::HostOffer ==> (out@.contains(Action::WriteMessage) <==> v.clip_enabled),
        !(e is Clip) ==> !out@.contains(Action::SetClipboard { enabled: true }),
{
    match e {
        Event::Clip { ctl } => {
            let state = clip_answer(
                c.wire,
                v.clip_policy,
                v.grants & c.wire.grant_clipboard != 0,
                c.clip_available,
                ctl,
            );
            assert(out@[0] == (Action::StoreClipEnabled { enabled: state.enabled }));
            assert(out@[1] == (Action::SetClipboard { enabled: state.enabled }));
            assert(out@[2] == (Action::WriteClipState { state }));
        },
        Event::RemoteOffer => {
            assert(out@[0] == out@[0]);
        },
        Event::AccessUpdate { grants } => {
            if grants & c.wire.grant_clipboard == 0 {
                assert(out@[0] == (Action::SetClipboard { enabled: false }));
                assert(out@[1] == Action::WriteMessage);
            } else {
                assert(out@[0] == Action::WriteMessage);
            }
        },
        Event::HostOffer => {
            if v.clip_enabled {
                assert(out@[0] == Action::WriteMessage);
            }
        },
        _ => {},
    }
}

/// A clipboard request is answered with its reason: the operator's refusal first, then the
/// device's, then a missing backend, then files that may not pass; `ok` only where none applies.
pub proof fn a_clipboard_answer_gives_its_reason(
    w: &ClipWire,
    policy: Option<u8>,
    granted: bool,
    available: bool,
    ctl: ClipControl,
    s: ClipState,
)
    requires
        call_ensures(resolve_clip_control, (w, policy, granted, available, ctl), s),
    ensures
        s.enabled == (policy is Some && granted && available && ctl.enabled),
        policy is None ==> s.policy == 0 && s.reason == w.reason_policy_disabled,
        policy matches Some(p) ==> s.policy == p,
        policy is Some && !granted ==> s.reason == w.reason_not_permitted,
        policy is Some && granted && ctl.enabled && !available ==> s.reason
            == w.reason_backend_unavailable,
        policy matches Some(p) && granted && (available || !ctl.enabled) && ctl.flags & w.flag_files
            != 0 && p & w.policy_files == 0 ==> s.reason == w.reason_no_files,
        policy matches Some(p) && granted && (available || !ctl.enabled) && (ctl.flags
            & w.flag_files == 0 || p & w.policy_files != 0) ==> s.reason == w.reason_ok,
{
}

/// The session ends with the control stream and with a lane it cannot do without; the lane of
/// something optional is only left alone from then on. Nothing else ends it or closes a lane.
pub proof fn only_a_needed_lane_ends_the_session(
    s: &mut ControlState,
    c: &ControlCfg,
    v: &Live,
    e: Event,
    out: Vec<Action>,
    lane: Lane,
)
    requires
        call_ensures(ControlState::step, (s, c, v, e), out),
    ensures
        final(s).ended <==> old(s).ended || e == Event::StreamClosed || (e matches
            Event::LaneClosed { lane: gone } && (gone == Lane::ProbeResult || gone
            == Lane::CursorShape || gone == Lane::Retarget || gone == Lane::Gap || gone
            == Lane::Correction)),
        old(s).listens(lane) && !final(s).listens(lane) ==> e == (Event::LaneClosed { lane }),
        !old(s).listens(lane) ==> !final(s).listens(lane),
        e matches Event::LaneClosed { lane: gone } ==> final(s).ended || !final(s).listens(gone),
{
}

/// A task that has just begun listens on every lane, in the mode it was given.
pub proof fn a_new_task_listens_everywhere(initial: Mode, s: ControlState, lane: Lane, p: bool)
    requires
        call_ensures(ControlState::new, (initial,), s),
        call_ensures(ControlState::polls, (&s, lane), p),
    ensures
        p,
        !s.ended,
        s.active == initial,
        s.last_switch_ns is None && s.last_probe_ns is None,
{
}

/// What the client waits for, and what the data plane must do, is vital; bookkeeping is not.
pub proof fn an_answer_is_vital(a: &Action, v: bool)
    requires
        call_ensures(Action::vital, (a,), v),
    ensures
        a is WriteReconfigured || a is WriteBitrateChanged || a is WriteClockEcho || a is
            WriteClipState || a is WritePipelineGap || a is WriteMessage ==> v,
        a is SwitchMode || a is ForceKeyframe || a is Invalidate || a is SetBitrate || a is
            StartProbe ==> v,
        a is StoreReceived || a is StoreFec || a is StoreCursorMode || a is StorePhase || a is
            AckShard || a is StoreClipEnabled || a is SetClipboard || a is InstallOffer ==> !v,
        a is NoteDenied || a is NoteKeyframeRequest || a is NoteRfi || a is NoteLoss || a is
            SampleBands || a is NoteBitrateAsk || a is NoteGap || a is EmitLink ==> !v,
{
}

/// A client's selection is installed only under a live grant with sync on.
pub proof fn a_selection_needs_its_grant(w: &ClipWire, grants: u32, on: bool, off: bool)
    requires
        call_ensures(clip_offer_permitted, (w, grants, true), on),
        call_ensures(clip_offer_permitted, (w, grants, false), off),
    ensures
        !off,
        grants & w.grant_clipboard == 0 ==> !on,
        grants & w.grant_clipboard != 0 ==> on,
{
}

} // verus!
