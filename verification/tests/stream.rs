use punktfunk::native::audio::{
    adopt_parked, rate_verdict, reopen_due, AudioFormat, AudioPacer, Departure, RateVerdict, Slot,
    Supply, Wait, PACE_MAX_SLEEP_NS, PACE_REANCHOR_NS,
};
use punktfunk::native::control::{
    Action, ClipControl, ClipState, ClipWire, ControlCfg, ControlState, Event, Lane, Live, Mode,
    MIN_PROBE_INTERVAL_NS, MIN_SWITCH_INTERVAL_NS,
};
use punktfunk::native::pad_audio::{
    linux_host_cap, linux_spawn, thread_name, windows_host_cap, windows_spawn, Endpoint,
    LinuxSource, Repair, WindowsVerdict, KIND_BIT_HAPTICS, KIND_BIT_SPEAKER,
};
use punktfunk::native::pts_clock::PtsClock;
use punktfunk::native::stream::capture::{CaptureBook, Captured, ParkState};
use punktfunk::native::stream::depth::{
    observe_period, DepthState, PipelineAsk, TickTiming, DEESCALATE_CLEAN_FRAMES,
    DEPTH_ESCALATE, DEPTH_WARMUP_FRAMES,
};
use punktfunk::native::stream::encode::{
    hdr_meta_due, poll_depth, stamp_frame, AuMarks, AuStages, ChunkInfo, DriverSplit, EncodeLoop, EncoderCaps,
    ResetVerdict, WireFlags, MAX_ENCODER_RESETS, MAX_FRAME_AGE_NS,
};
use punktfunk::native::stream::probe::{
    declined, plan_probe, ProbeBurst, ProbeRequest, MAX_PROBE_KBPS, MAX_PROBE_MS,
};
use punktfunk::native::stream::send::{
    close_streamed, flush_burst, flushed, frame_flags, host_us, idle_wait, open_streamed,
    shard_to_apply, smooth_spread, window_losses, FrameInfo, SendFlags, SendWindow, StageLane,
    IDLE_TICK_NS,
};
use punktfunk::native::stream::send_thread::{
    Recording, SendCounters, SendThread, EGRESS_NS, WINDOW_NS,
};
use punktfunk::native::stream::session_watch::{
    is_steam_htpc_platform, session_watch_enabled, SessionWatch, WatchStep, DEBOUNCE_NS,
};
use punktfunk::native::stream::sources::{plan_software, source_flags, SourceFlags, Synthetic};
use punktfunk::send_pacing::{CaptureCredit, PaceStat};
use punktfunk::update::Platform;

const MS: u64 = 1_000_000;

// ---------------------------------------------------------------- audio

fn opus() -> AudioFormat {
    AudioFormat::resolve(false, 0, 0, 2, true)
}

#[test]
fn a_format_follows_from_its_plane() {
    let f = opus();
    assert_eq!((f.rate_hz, f.frame_us, f.frame_len), (48_000, 5_000, 480));
    assert_eq!(f.frame_interval_ns, 5 * MS);
    assert_eq!(f.edge_fade, 96);
    assert!(f.redundancy);
    let p = AudioFormat::resolve(true, 44_100, 5_000, 2, true);
    assert_eq!((p.frame_len, p.frame_interval_ns), (440, 4_988_662));
    assert!(!p.redundancy, "redundancy is for Opus");
    assert_eq!(AudioFormat::resolve(true, 48_000, 0, 1, false).frame_us, 1);
    assert_eq!(AudioFormat::resolve(true, 48_000, 0, 1, false).frame_interval_ns, 1);
    assert_eq!(rate_verdict(48_000, &f), RateVerdict::Match);
    assert_eq!(rate_verdict(44_100, &f), RateVerdict::Tolerate);
    assert_eq!(rate_verdict(48_000, &p), RateVerdict::EndPlane);
    assert!(adopt_parked(false, 2, 48_000, &f));
    assert!(!adopt_parked(true, 2, 48_000, &f));
    assert!(!adopt_parked(false, 6, 48_000, &f));
    assert!(reopen_due(None, 0, 500));
    assert!(!reopen_due(Some(100), 599, 500));
    assert!(reopen_due(Some(100), 600, 500));
}

#[test]
fn one_frame_leaves_per_slot() {
    let f = opus();
    let mut c = PtsClock::new(f.rate_hz, f.channels);
    let mut p = AudioPacer::new(f, 0);
    assert_eq!(p.wait(0, false, 20 * MS), Wait::Chunk);
    let e = p.on_chunk(&mut c, 480, false, 10 * MS, 1_000 * MS);
    assert!(!e.restart);
    assert_eq!(e.quantum_ns, 5 * MS);
    // The clock is tied to the arrival less what waits.
    assert_eq!(c.pts_ns(), 995 * MS);
    assert_eq!(p.slot(10 * MS), Slot::Due { late_ns: 0, reanchored: false });
    assert_eq!(p.supply(10 * MS, 0), Supply::Real);
    let plan = p.release(&mut c, 10 * MS, false);
    assert_eq!((plan.take, plan.pts_ns, plan.muted), (480, 995 * MS, false));
    assert_eq!(c.pts_ns(), 1_000 * MS);
    assert!(p.departed(Departure::Sent, 10 * MS));
    assert_eq!((p.seq, p.due_ns, p.has_prev), (1, Some(15 * MS), true));
    assert_eq!(p.slot(14 * MS), Slot::Early);
    assert_eq!(p.supply(16 * MS, MS), Supply::Hole(6 * MS));
    assert_eq!(p.wait(10 * MS, false, 20 * MS), Wait::Within(PACE_MAX_SLEEP_NS));
    assert_eq!(p.wait(10 * MS, true, 20 * MS), Wait::Chunk);
}

#[test]
fn a_hole_is_covered_and_faded() {
    let f = opus();
    let mut c = PtsClock::new(f.rate_hz, f.channels);
    let mut p = AudioPacer::new(f, 0);
    p.on_chunk(&mut c, 500, false, 0, 1_000 * MS);
    p.release(&mut c, 0, false);
    p.departed(Departure::Sent, 0);
    let before = c.pts_ns();
    let first = p.infill(&mut c, 30 * MS, true, false);
    assert!(first.infilled);
    assert_eq!((first.take, first.borrow, first.fade_tail, first.len), (20, 0, 20, 480));
    assert_eq!(first.pts_ns, before);
    let second = p.infill(&mut c, 35 * MS, false, false);
    assert_eq!((second.take, second.borrow, second.fade_tail), (0, 0, 0));
    // The next real frame fades in.
    p.on_chunk(&mut c, 480, false, 40 * MS, 1_020 * MS);
    let real = p.release(&mut c, 40 * MS, false);
    assert_eq!(real.fade_head, 96);
    // An empty partial borrows from the last real frame.
    let borrowed = p.infill(&mut c, 60 * MS, true, false);
    assert_eq!((borrowed.take, borrowed.borrow, borrowed.fade_tail), (0, 96, 96));
}

#[test]
fn a_backlog_grants_one_second_frame() {
    let f = opus();
    let mut c = PtsClock::new(f.rate_hz, f.channels);
    let mut p = AudioPacer::new(f, 0);
    for i in 0..10u64 {
        p.on_chunk(&mut c, 480, false, i, 1_000 * MS);
    }
    // The first frame opens the schedule: its slot is the next one.
    p.release(&mut c, 0, false);
    assert_eq!(p.due_ns, Some(5 * MS));
    // A new pass may grant again; the grant keeps the slot open for one more frame.
    p.begin_pass();
    p.release(&mut c, 5 * MS, false);
    assert!(p.bonus_taken);
    assert_eq!(p.due_ns, Some(5 * MS));
    p.release(&mut c, 5 * MS, false);
    assert!(!p.bonus_taken, "two frames fill a slot");
    assert_eq!(p.due_ns, Some(10 * MS));
}

#[test]
fn a_debt_is_forgiven_and_a_lost_frame_is_no_predecessor() {
    let f = opus();
    let mut c = PtsClock::new(f.rate_hz, f.channels);
    let mut p = AudioPacer::new(f, 0);
    p.on_chunk(&mut c, 960, false, 0, 1_000 * MS);
    p.release(&mut c, 0, false);
    p.departed(Departure::Sent, 0);
    assert_eq!(
        p.slot(5 * MS + PACE_REANCHOR_NS + 1),
        Slot::Due { late_ns: 0, reanchored: true }
    );
    assert_eq!(p.due_ns, None);
    assert!(p.departed(Departure::TooLarge, 0));
    assert_eq!((p.seq, p.has_prev, p.oversized), (2, false, 1));
    assert!(p.departed(Departure::NotEncoded, 0));
    assert_eq!(p.seq, 2);
    assert!(!p.departed(Departure::Unavailable, 0));
    p.reopened();
    assert_eq!(p.backlog, 0);
    let e = p.on_chunk(&mut c, 100, true, 0, 2_000 * MS);
    assert!(e.restart);
    let m = {
        p.on_chunk(&mut c, 380, false, 0, 2_000 * MS);
        p.release(&mut c, 0, true)
    };
    assert!(m.muted && p.resume_fade);
}

// ---------------------------------------------------------------- control

const WIRE: ClipWire = ClipWire {
    grant_clipboard: 4,
    policy_files: 2,
    flag_files: 1,
    reason_ok: 0,
    reason_policy_disabled: 1,
    reason_not_permitted: 2,
    reason_backend_unavailable: 3,
    reason_no_files: 4,
};

fn cfg() -> ControlCfg {
    ControlCfg {
        live_reconfig_ok: true,
        adaptive_fec: true,
        pinned_rate: false,
        session_bitrate_kbps: 50_000,
        clip_available: true,
        wire: WIRE,
    }
}

fn live(now_ns: u64) -> Live {
    Live {
        now_ns,
        bitrate_kbps: 20_000,
        ceiling_kbps: 0,
        cadence_degraded: false,
        fec_pct: 10,
        grants: 0xff,
        clip_policy: Some(3),
        clip_enabled: true,
    }
}

const FHD: Mode = Mode {
    width: 1920,
    height: 1080,
    refresh_hz: 60,
};
const QHD: Mode = Mode {
    width: 2560,
    height: 1440,
    refresh_hz: 120,
};

#[test]
fn a_switch_is_answered_and_spaced() {
    let mut s = ControlState::new(FHD);
    let ask = Event::Reconfigure { mode: QHD, valid: true };
    assert_eq!(
        s.step(&cfg(), &live(0), ask),
        vec![
            Action::WriteReconfigured { accepted: true, mode: QHD },
            Action::SwitchMode { mode: QHD },
        ]
    );
    let back = Event::Reconfigure { mode: FHD, valid: true };
    assert_eq!(
        s.step(&cfg(), &live(MIN_SWITCH_INTERVAL_NS - 1), back),
        vec![Action::WriteReconfigured { accepted: false, mode: QHD }]
    );
    assert_eq!(
        s.step(&cfg(), &live(MIN_SWITCH_INTERVAL_NS), back).len(),
        2
    );
    assert_eq!(
        s.step(&cfg(), &live(u64::MAX), Event::Reconfigure { mode: QHD, valid: false }),
        vec![Action::WriteReconfigured { accepted: false, mode: FHD }]
    );
    s.step(&cfg(), &live(0), Event::Corrected { accepted: false, mode: QHD });
    assert_eq!(s.active, QHD);
}

#[test]
fn a_rate_is_one_the_encoder_will_run() {
    let rate = |c: &ControlCfg, v: &Live, resolved| {
        let mut s = ControlState::new(FHD);
        let out = s.step(
            c,
            v,
            Event::SetBitrate { requested_kbps: 1, resolved_kbps: resolved },
        );
        match out[2] {
            Action::SetBitrate { kbps } => kbps,
            _ => panic!("{out:?}"),
        }
    };
    assert_eq!(rate(&cfg(), &live(0), 30_000), 30_000);
    let mut v = live(0);
    v.ceiling_kbps = 25_000;
    assert_eq!(rate(&cfg(), &v, 30_000), 25_000);
    v.cadence_degraded = true;
    assert_eq!(rate(&cfg(), &v, 30_000), 20_000, "no climb while behind");
    assert_eq!(rate(&cfg(), &v, 10_000), 10_000, "down is always granted");
    let mut c = cfg();
    c.pinned_rate = true;
    assert_eq!(rate(&c, &v, 1), 50_000);
}

#[test]
fn probes_are_spaced_and_lanes_close_once() {
    let mut s = ControlState::new(FHD);
    assert_eq!(s.step(&cfg(), &live(0), Event::Probe), vec![Action::StartProbe]);
    assert!(s.step(&cfg(), &live(MIN_PROBE_INTERVAL_NS - 1), Event::Probe).is_empty());
    assert!(s.polls(Lane::Access));
    s.step(&cfg(), &live(0), Event::LaneClosed { lane: Lane::Access });
    assert!(!s.polls(Lane::Access) && !s.ended);
    s.step(&cfg(), &live(0), Event::LaneClosed { lane: Lane::Gap });
    assert!(s.ended);
    assert!(Action::StartProbe.vital());
    assert!(!Action::NoteGap.vital());
}

#[test]
fn no_grant_means_no_clipboard() {
    let mut s = ControlState::new(FHD);
    let ctl = ClipControl { enabled: true, flags: 0 };
    let mut v = live(0);
    v.grants = 0;
    assert_eq!(
        s.step(&cfg(), &v, Event::Clip { ctl })[2],
        Action::WriteClipState {
            state: ClipState {
                enabled: false,
                policy: 3,
                reason: WIRE.reason_not_permitted
            }
        }
    );
    assert_eq!(s.step(&cfg(), &v, Event::RemoteOffer), vec![Action::NoteDenied]);
    assert_eq!(
        s.step(&cfg(), &live(0), Event::AccessUpdate { grants: 0 }),
        vec![Action::SetClipboard { enabled: false }, Action::WriteMessage]
    );
    assert_eq!(
        s.step(&cfg(), &live(0), Event::Delivery { packets_received: u64::MAX }),
        vec![Action::StoreReceived { packets: u32::MAX - 1 }]
    );
    assert_eq!(
        s.step(
            &cfg(),
            &live(0),
            Event::Loss { loss_ppm: 5, unrecovered_run: 0, target_pct: 30 }
        )[2],
        Action::StoreFec { pct: 30 }
    );
}

// ---------------------------------------------------------------- pads

#[test]
fn pad_audio_is_offered_and_placed() {
    assert!(linux_host_cap(true, None, true));
    assert!(!linux_host_cap(true, Some("0"), true));
    assert!(linux_host_cap(true, Some("1"), true));
    assert!(!linux_host_cap(false, None, true));
    assert!(!windows_host_cap(true, None, Some(0)));
    assert!(windows_host_cap(true, None, Some(1)));
    assert!(!windows_host_cap(true, None, None));
    let both = KIND_BIT_HAPTICS | KIND_BIT_SPEAKER;
    assert_eq!(linux_spawn(0, 0, 4, true, false), LinuxSource::NoKinds);
    assert_eq!(linux_spawn(both, 4, 4, true, false), LinuxSource::PastSlots);
    assert_eq!(linux_spawn(KIND_BIT_SPEAKER, 1, 4, true, false), LinuxSource::Usb { slot: 1 });
    assert_eq!(
        linux_spawn(both, 1, 4, false, true),
        LinuxSource::Sink { slot: 1, edge: true }
    );
    let ep = |id: &str, kick| {
        Some(Endpoint {
            endpoint_id: id.to_string(),
            needs_aeb_kick: kick,
        })
    };
    assert_eq!(windows_spawn(0, &None, false), WindowsVerdict::NoKinds);
    assert_eq!(windows_spawn(1, &None, false), WindowsVerdict::NoEndpoint);
    assert_eq!(windows_spawn(1, &ep("", false), false), WindowsVerdict::NoId);
    assert_eq!(windows_spawn(1, &ep("x", true), true), WindowsVerdict::RefusesFormat);
    assert_eq!(windows_spawn(1, &ep("x", true), false), WindowsVerdict::NotAdopted);
    assert_eq!(windows_spawn(1, &ep("x", false), false), WindowsVerdict::Stream);
    let mut r = Repair::new();
    assert!(!r.due(false));
    assert!(r.due(true));
    assert!(!r.due(true), "one repair per streamer");
    assert_eq!(thread_name(12), "punktfunk1-pad12");
}

// ---------------------------------------------------------------- encode

const FLAGS: WireFlags = WireFlags {
    pic: 1,
    sof: 2,
    recovery_point: 4,
    recovery_close: 8,
    recovery_anchor: 16,
    chunk_aligned: 32,
};
const CAPS: EncoderCaps = EncoderCaps {
    intra_refresh_recovery: true,
    intra_refresh_period: 2,
};
const PLAIN: AuMarks = AuMarks {
    keyframe: false,
    recovery_point: false,
    recovery_close: false,
    recovery_anchor: false,
    chunk_aligned: false,
};

#[test]
fn the_index_told_is_the_index_stamped() {
    let mut l = EncodeLoop::new(16 * MS, 0);
    assert_eq!(l.wire_index(), 0);
    l.submitted(None, 5, 6, false, 0);
    assert_eq!(l.wire_index(), 1);
    l.submitted(Some(2), 7, 8, true, 100 * MS);
    assert_eq!(l.inflight.len(), 3);
    assert_eq!(l.st.next_ns, 116 * MS);
    assert!(l.owes(3) && !l.owes(4));
    let m = l.on_au(&FLAGS, &CAPS, &PLAIN, 9, true, 50);
    assert_eq!((m.capture_ns, m.frame_index, m.flags), (9, 0, 1));
    l.delivered();
    let m = l.on_au(&FLAGS, &CAPS, &PLAIN, 0, true, 60);
    assert_eq!((m.capture_ns, m.frame_index, m.flags), (7, 1, 1 | 4), "a wave closed");
    l.delivered();
    assert_eq!(l.st.sent, 2);
    let d = l.drain_next(&FLAGS, true).unwrap();
    assert_eq!((d.frame_index, d.flags), (2, 3));
    assert!(l.drain_next(&FLAGS, true).is_none());
}

#[test]
fn a_torn_unit_is_closed_before_the_next() {
    let mut l = EncodeLoop::new(16 * MS, 0);
    l.submitted(None, 5, 6, false, 0);
    l.submitted(None, 7, 8, false, 0);
    let chunk = |first, last| ChunkInfo { first, last, pts_ns: 0, marks: PLAIN };
    let a = l.on_chunk(&FLAGS, &CAPS, &chunk(true, false), 0, false, 1);
    assert_eq!((a.frame_index, a.capture_ns), (0, 5));
    assert!(l.st.wire_frame_open);
    let b = l.on_chunk(&FLAGS, &CAPS, &chunk(true, true), a.flags, false, 2);
    assert_eq!((b.frame_index, b.capture_ns), (1, 7), "the torn unit kept its index");
    assert!(!l.st.wire_frame_open && l.inflight.is_empty());
    assert_eq!(l.st.au_seq, 2);
}

#[test]
fn a_failing_encoder_is_given_up_on() {
    let mut l = EncodeLoop::new(16 * MS, 0);
    assert_eq!(l.submit_failed(true), ResetVerdict::GiveUp);
    for i in 1..=MAX_ENCODER_RESETS {
        assert_eq!(l.submit_failed(false), ResetVerdict::Rebuild, "{i}");
    }
    assert_eq!(l.back_off(0), 1_600 * MS);
    assert_eq!(l.submit_failed(false), ResetVerdict::GiveUp);
    let mut l = EncodeLoop::new(16 * MS, 0);
    l.submit_failed(false);
    assert_eq!(l.back_off(7), 100 * MS);
    assert_eq!(l.st.next_ns, 100 * MS + 7);
    assert_eq!(l.check_stall(false, 1, 500 * MS, 600 * MS), None, "nothing owed");
    l.submitted(None, 0, 0, false, 0);
    assert_eq!(l.check_stall(false, 1, 500 * MS, 499 * MS), None);
    assert_eq!(
        l.check_stall(false, 1, 500 * MS, 500 * MS),
        Some(ResetVerdict::Rebuild)
    );
    assert_eq!(l.check_stall(true, 1, 500 * MS, 0), Some(ResetVerdict::Rebuild));
    l.rebuilt(9);
    assert!(l.inflight.is_empty());
    assert_eq!(l.tick_sleep(0), Some(l.st.next_ns));
    assert_eq!(l.tick_sleep(u64::MAX), None);
    assert_eq!(l.st.next_ns, u64::MAX);
}

#[test]
fn a_repeat_is_not_waited_for() {
    let l = EncodeLoop::new(16 * MS, 0);
    assert_eq!(l.au_wait(true, 5 * MS), 5 * MS);
    assert_eq!(l.au_wait(false, 5 * MS), 21 * MS);
    assert_eq!(poll_depth(true, 4), 1);
    assert_eq!(poll_depth(false, 4), 4);
}

#[test]
fn a_deep_backlog_is_a_stall() {
    // A window of 100 ms holds ten frames of 10 ms.
    let mut l = EncodeLoop::new(10 * MS, 0);
    for _ in 0..11 {
        l.submitted(None, 0, 0, false, 0);
    }
    assert_eq!(l.check_stall(false, 1, 100 * MS, 0), None);
    l.submitted(None, 0, 0, false, 0);
    assert_eq!(l.check_stall(false, 1, 100 * MS, 0), Some(ResetVerdict::Rebuild));
    assert_eq!(l.check_stall(false, 2, 100 * MS, 0), None, "a deeper pipeline may hold more");
}

#[test]
fn stamps_that_are_not_believed() {
    let s = stamp_frame(1_000_000, 3_000_000, false);
    assert_eq!((s.capture_ns, s.queue_us), (1_000_000, 2_000));
    assert_eq!(stamp_frame(1_000_000, 3_000_000, true).queue_us, 0);
    assert_eq!(stamp_frame(0, 3_000_000, false).capture_ns, 3_000_000);
    assert_eq!(stamp_frame(4_000_000, 3_000_000, false).capture_ns, 3_000_000);
    assert_eq!(
        stamp_frame(1, 1 + MAX_FRAME_AGE_NS, false).capture_ns,
        1 + MAX_FRAME_AGE_NS
    );
    let split = DriverSplit { pool_ns: None, encode_ns: 2_500, ipc_ns: 1_000 };
    let a = AuStages::driver(Some(split), Some(9));
    assert_eq!((a.queue_us, a.encode_us, a.ipc_us, a.split), (0, 2, 1, true));
    assert_eq!(AuStages::driver(None, Some(9_000)).encode_us, 9);
    assert_eq!(AuStages::host(3, 4).queue_us, 4);
    let mut resend = true;
    assert!(!hdr_meta_due(false, true, &mut resend) && resend);
    assert!(hdr_meta_due(true, false, &mut resend) && !resend);
    assert!(!hdr_meta_due(true, false, &mut resend));
    assert!(hdr_meta_due(true, true, &mut resend));
}

#[test]
fn depth_rises_when_behind_and_winds_back() {
    let mut d = DepthState::new();
    let behind = TickTiming { now_ns: 100, next_ns: 0, interval_ns: 16, src_period_ns: None };
    let clean = TickTiming { now_ns: 0, next_ns: 100, interval_ns: 16, src_period_ns: None };
    for _ in 0..DEPTH_WARMUP_FRAMES {
        assert_eq!(d.adapt(true, 2, &behind).degraded, None);
    }
    for _ in 0..DEPTH_ESCALATE {
        d.adapt(true, 2, &behind);
    }
    assert_eq!(d.cur_depth, 2);
    assert_eq!(d.depth(true, 2), 2);
    assert_eq!(d.depth(true, 1), 1);
    let mut asked = false;
    for _ in 0..DEPTH_ESCALATE {
        asked = d.adapt(true, 2, &behind).ask == PipelineAsk::On;
    }
    assert!(asked);
    d.answered(PipelineAsk::On, true);
    for _ in 0..DEESCALATE_CLEAN_FRAMES {
        d.adapt(true, 2, &clean);
    }
    assert!(d.deescalating);
    assert_eq!(d.adapt(true, 2, &clean).ask, PipelineAsk::Off);
    d.answered(PipelineAsk::Off, false);
    assert!(!d.deescalating && !d.pipelined_active);
    assert_eq!(d.adapt(false, 4, &behind).degraded, None);
    assert_eq!(d.depth(false, 4), 4);
    assert_eq!(d.depth(false, 0), 1);
    assert_eq!(observe_period(None, 16, 16), Some(16));
    assert_eq!(observe_period(Some(16), 32, 16), Some(18));
    assert_eq!(observe_period(Some(16), 8 * 16 + 1, 16), Some(16), "a hitch is no cadence");
}

#[test]
fn only_the_source_counts_as_progress() {
    let mut b = CaptureBook {
        new_frames: 0,
        regenerated: 0,
        repeats: 0,
        last_source_ns: None,
        src_period_ns: None,
        rebuilds: 3,
    };
    b.on_frame(Captured::Regenerated, 10, 16);
    b.on_frame(Captured::Repeat, 20, 16);
    assert_eq!((b.rebuilds, b.last_source_ns), (3, None));
    b.on_frame(Captured::Source, 100, 16);
    b.on_frame(Captured::Source, 116, 16);
    assert_eq!((b.rebuilds, b.src_period_ns, b.new_frames), (0, Some(16), 2));
    b.reset_counts();
    assert_eq!((b.new_frames, b.last_source_ns), (0, Some(116)));
    let mut p = ParkState { display: None, attempts: 5, next_ns: 0 };
    assert!(!p.rearm(true, 1, 1, 50));
    assert!(p.rearm(false, 1, 1, 50));
    assert_eq!((p.attempts, p.next_ns), (0, 50));
    assert!(!p.rearm(false, 1, 1, 60));
    assert!(p.rearm(false, 1, 2, 60));
}

#[test]
fn a_probe_is_held_to_its_ceilings() {
    let req = |k, d| ProbeRequest { target_kbps: k, duration_ms: d };
    assert!(plan_probe(req(1_000, 100), false).is_none());
    assert!(plan_probe(req(0, 100), true).is_none());
    let p = plan_probe(req(u32::MAX, u32::MAX), true).unwrap();
    assert_eq!((p.target_kbps, p.duration_ms), (MAX_PROBE_KBPS, MAX_PROBE_MS));
    let p = plan_probe(req(1_000, 100), true).unwrap();
    assert_eq!((p.bytes_per_sec, p.chunk), (125_000, 1_200));
    assert_eq!((p.allowed(0), p.allowed(10 * MS)), (0, 1_250));
    assert_eq!(p.allowed(u64::MAX), 2_305_843_009_213_693);
    let mut b = ProbeBurst::new(p, 1_000, 10);
    assert!(b.pump(1));
    assert!(!b.pump(1_200));
    assert!(b.pump(1_201));
    let r = b.finish(100, 1_005, 12);
    assert_eq!((r.bytes_sent, r.packets_sent), (2_400, 2));
    assert_eq!((r.wire_packets_sent, r.send_dropped), (3, 2));
    assert_eq!(declined().bytes_sent, 0);
}

#[test]
fn a_unit_spends_one_burst_budget() {
    let w = SendFlags { slice_stream: 64, repeat: 128, probe: 256 };
    assert_eq!(frame_flags(&w, 1, true), 129);
    let mut open = None;
    assert!(flush_burst(&open, Some(5)).is_err());
    let o = open_streamed(&mut open, &w, 1, true, false, Some(3_000), 0);
    assert_eq!((o.flags, o.abandoned), (65, false));
    assert_eq!(flush_burst(&open, None), Ok(Some(3_000)));
    let stat = PaceStat { spread_us: 10, paced: true };
    flushed(&mut open, 2_000, &stat);
    assert_eq!(flush_burst(&open, Some(9)), Ok(Some(1_000)));
    flushed(&mut open, 2_000, &stat);
    assert_eq!(flush_burst(&open, Some(9)), Ok(Some(0)));
    assert!(open_streamed(&mut open, &w, 1, false, true, None, 0).abandoned);
    assert_eq!(flush_burst(&open, Some(9)), Ok(Some(9)));
    let whole = close_streamed(&mut open, &PaceStat { spread_us: 5, paced: false }).unwrap();
    assert_eq!((whole.spread_us, whole.paced), (5, false));
    assert!(close_streamed(&mut open, &stat).is_none());
    assert_eq!(smooth_spread(0, 80), 80);
    assert_eq!(smooth_spread(100, 60), 90);
    assert_eq!(idle_wait(Some(7), false), 7);
    assert_eq!(idle_wait(Some(7), true), IDLE_TICK_NS);
    assert_eq!(idle_wait(None, false), IDLE_TICK_NS);
    assert_eq!(shard_to_apply(false, &vec![1, 2]), Some(2));
    assert_eq!(shard_to_apply(true, &vec![1, 2]), None);
    assert_eq!(shard_to_apply(false, &vec![]), None);
    assert_eq!(host_us(5_000, 2_000), 3);
    assert_eq!(host_us(0, 2_000), 0);
}

#[test]
fn a_window_counts_what_was_measured() {
    let info = FrameInfo {
        capture_ns: 0,
        flags: 0,
        encode_us: 7,
        queue_us: 0,
        ipc_us: 3,
        cap_us: 1,
        submit_us: 2,
        wait_us: 4,
        repeat: false,
        was_measured: true,
        driver: false,
        split: false,
    };
    let stat = PaceStat { spread_us: 9, paced: false };
    let mut w = SendWindow::new();
    w.note(&info, &stat, false, 11);
    assert_eq!((w.cap.clone(), w.queue.clone(), w.host.clone()), (vec![1], vec![0], vec![11]));
    assert_eq!(w.stages()[1], (StageLane::Capture, "capture"));
    let mut unmeasured = info;
    unmeasured.was_measured = false;
    w.note(&unmeasured, &stat, true, 12);
    assert_eq!((w.cap.len(), w.host.len(), w.encode_us.len()), (1, 1, 2));
    let mut driver = info;
    driver.driver = true;
    w.note(&driver, &stat, false, 1);
    assert_eq!(w.stages()[0], (StageLane::Driver, "driver"));
    driver.split = true;
    w.note(&driver, &stat, false, 1);
    assert_eq!(w.stages()[0], (StageLane::Pool, "pool"));
    assert!(w.pool.is_empty(), "a zero pool wait is unmeasured");
    assert_eq!((w.new_frames, w.immediate_frames), (4, 4));
    w.clear();
    assert_eq!(w.new_frames, 0);
}

#[test]
fn losses_are_growth_within_the_window() {
    let l = window_losses(true, 10, 13, 100, 104);
    assert_eq!((l.frames_dropped, l.send_dropped), (Some(3), 4));
    let l = window_losses(false, 10, 13, 104, 100);
    assert_eq!((l.frames_dropped, l.send_dropped), (None, 0));
}

#[test]
fn a_change_of_session_has_to_last() {
    let mut w = SessionWatch { current: 1, pending: None };
    assert_eq!(w.observe(2, 0), WatchStep::Nothing);
    assert_eq!(w.observe(1, 10), WatchStep::Nothing);
    assert_eq!(w.observe(2, 20), WatchStep::Nothing);
    assert_eq!(w.observe(2, 20 + DEBOUNCE_NS - 1), WatchStep::Nothing);
    assert_eq!(w.observe(2, 20 + DEBOUNCE_NS), WatchStep::Follow(2));
    w.followed(2, false);
    assert_eq!(w.current, 1);
    w.followed(2, true);
    assert_eq!(w.current, 2);
    assert!(is_steam_htpc_platform(Some("NAME=x\nID=bazzite\n")));
    assert!(is_steam_htpc_platform(Some("ID=steamos")));
    assert!(!is_steam_htpc_platform(Some("ID=arch\n")));
    assert!(!is_steam_htpc_platform(None));
    assert!(session_watch_enabled(Some("1"), None));
    assert!(!session_watch_enabled(Some(" OFF "), Some("ID=bazzite\n")));
    assert!(session_watch_enabled(None, Some("ID=bazzite\n")));
    assert!(!session_watch_enabled(None, Some("ID=arch\n")));
}

#[test]
fn a_test_source_sends_each_frame_once() {
    let mut run = Synthetic::new(3);
    assert_eq!(run.step(false), Some(0));
    assert_eq!(run.step(true), None);
    assert_eq!(run.step(false), Some(1));
    assert_eq!(run.step(false), Some(2));
    assert_eq!(run.step(false), None);
    let bits = SourceFlags { pic: 1, sof: 4 };
    assert_eq!((source_flags(&bits, true), source_flags(&bits, false)), (5, 1));
}

#[test]
fn the_software_source_is_h264_on_linux() {
    let p = plan_software(Platform::Linux, "H264", 60, 20_000).unwrap();
    assert_eq!((p.hz, p.interval_ns, p.bitrate_bps), (60, 16_666_666, 20_000_000));
    let p = plan_software(Platform::Linux, "H264", 0, 1).unwrap();
    assert_eq!((p.hz, p.interval_ns), (1, 1_000_000_000));
    assert_eq!(
        plan_software(Platform::Linux, "H265", 60, 1).unwrap_err(),
        "the software source encodes H.264 only, and H265 was negotiated"
    );
    assert!(plan_software(Platform::Windows, "H264", 60, 1).unwrap_err().ends_with("Linux-only"));
}

fn unit(flags: u32) -> FrameInfo {
    FrameInfo {
        capture_ns: 1_000_000,
        flags,
        encode_us: 7,
        queue_us: 3,
        ipc_us: 0,
        cap_us: 1,
        submit_us: 2,
        wait_us: 4,
        repeat: false,
        was_measured: true,
        driver: false,
        split: false,
    }
}

#[test]
fn a_sent_unit_is_stamped_and_counted() {
    let bits = SendFlags { slice_stream: 64, repeat: 128, probe: 256 };
    let mut t = SendThread::new(0, 0);
    assert!(t.turn(true).is_none());
    assert!(t.turn(false).unwrap().between_units);
    let stat = PaceStat { spread_us: 400, paced: true };
    let a = t.sent(&unit(1), &stat, &bits, true, i64::MIN, 3_000_000);
    assert!(a.first_packet && a.sample_wire);
    let timing = a.timing.unwrap();
    assert_eq!((timing.pts_ns, timing.host_us), (1_000_000, 2_000));
    assert_eq!((timing.queue_us, timing.encode_us, timing.pace_us), (3, 7, 400));
    assert_eq!(timing.applied_phase_ns, i32::MIN);
    assert_eq!(t.spread_us, 400);
    // Filler of a speed test has no timing, and uncounted units leave the window alone.
    let a = t.sent(&unit(256), &PaceStat { spread_us: 0, paced: false }, &bits, false, 9, 0);
    assert!(!a.first_packet && !a.sample_wire && a.timing.is_none());
    assert_eq!(t.spread_us, 300);
    let w = &t.window;
    assert_eq!((w.encode_us.len(), w.paced_frames, w.immediate_frames), (1, 1, 0));
    assert_eq!((w.new_frames, w.repeat_frames, w.host.len()), (1, 0, 1));
}

#[test]
fn windows_report_everything_once() {
    let mut t = SendThread::new(0, 5);
    let at = |n: u64| SendCounters {
        packets_sent: 10 * n,
        send_dropped: n,
        bytes_sent: 1_000 * n,
        driver_dropped: 5 + n,
    };
    let quiet = t.tick(&at(1), WINDOW_NS - 1);
    assert!(quiet.egress.is_none() && quiet.closed.is_none());
    let first = t.tick(&at(2), WINDOW_NS).closed.unwrap();
    assert_eq!((first.elapsed_ns, first.bytes, first.refused), (WINDOW_NS, 2_000, 2));
    assert_eq!((first.losses.frames_dropped, first.losses.send_dropped), (None, 2));
    t.window.driver_path = true;
    let second = t.tick(&at(7), EGRESS_NS);
    let closed = second.closed.unwrap();
    assert_eq!((closed.bytes, closed.losses.frames_dropped), (5_000, Some(5)));
    assert!(!t.window.driver_path);
    let egress = second.egress.unwrap();
    assert_eq!((egress.sent, egress.send_dropped), (70, 7));
    assert!(t.tick(&at(7), EGRESS_NS + 1).egress.is_none());
    // A capture that started since does not know the session.
    assert_eq!(t.recording(false, 1), Recording::Off);
    assert_eq!(t.recording(true, 1), Recording::Register);
    t.registered(1, 42);
    assert_eq!(t.recording(true, 1), Recording::Known(42));
    assert_eq!(t.recording(true, 2), Recording::Register);
}

#[test]
fn arrivals_are_waited_for_past_the_floor() {
    let mut l = EncodeLoop::new(10 * MS, 0);
    l.submitted(None, 0, 0, true, 0);
    let mut credit = CaptureCredit::new(0);
    credit.charge();
    // A quarter is banked and two tenths come in: the floor and the missing share are both ahead.
    let w = l.arrival_wait(&mut credit, 0, 2 * MS);
    assert_eq!((w.sleep_ns, w.until_ns), (7 * MS, 15 * MS));
    // With a full bank only the floor counts.
    let mut credit = CaptureCredit::new(0);
    let w = l.arrival_wait(&mut credit, 0, 4 * MS);
    assert_eq!(w.sleep_ns, 5 * MS);
    let w = l.arrival_wait(&mut credit, 0, 9 * MS);
    assert_eq!(w.sleep_ns, 0);
}
