use punktfunk::native::control::{
    clip_offer_permitted, resolve_clip_control, ClipControl, ClipState, ClipWire,
};
use punktfunk::native::motion_cadence::{
    bucket, bucket_upper_us, MotionCadence, PadCadence, BUCKETS, STALL_GAP_NS,
};
use punktfunk::native::pcm;
use punktfunk::native::pts_clock::PtsClock;
use punktfunk::native::stream::depth::{cadence_budget, encode_behind_cadence};
use punktfunk::native::stream::encode::{hdr_for, mark_recovery_boundary};
use punktfunk::native::stream::send::{reconfig_allowed, Compositor};

/// Frame labels of the audio plane, in microseconds.
const FRAME_US_LADDER: [u32; 7] = [1_000, 2_000, 2_500, 5_000, 7_500, 10_000, 20_000];

/// Pads a session can carry.
const MAX_PADS: usize = 16;

#[test]
fn the_clock_counts_samples_and_not_nominal_frames() {
    let (rate, us, ch) = (44_100u32, 5_000u32, 2u8);
    let n = pcm::samples_per_frame(rate, us, ch);
    assert_eq!(n, 440, "220 samples per channel, not 220.5");

    let mut c = PtsClock::new(rate, ch);
    let frames = 1_000_000 / us as u64; // 200
    for _ in 0..frames {
        c.advance(n);
    }
    let real_ns = c.pts_ns();
    assert_eq!(real_ns, 997_732_426, "88 000 samples at 44 100 Hz stereo");

    // What the nominal advance would have claimed, and the gap between the two.
    let nominal_ns = frames * us as u64 * 1_000;
    assert_eq!(nominal_ns - real_ns, 2_267_574, "invented ns per second");
    let fast_ppm = (nominal_ns - real_ns) * 1_000_000 / real_ns;
    assert_eq!(fast_ppm, 2_272, "the nominal clock runs this many ppm fast");

    let hour = 3_600 * (nominal_ns - real_ns) / 1_000_000;
    assert_eq!(hour, 8_163, "ms of drift over an hour");
}

#[test]
fn a_running_total_beats_summing_floored_frames_by_a_hair() {
    let (rate, us, ch) = (44_100u32, 5_000u32, 2u8);
    let n = pcm::samples_per_frame(rate, us, ch);
    let frames = 200u64;
    let mut c = PtsClock::new(rate, ch);
    for _ in 0..frames {
        c.advance(n);
    }
    let summed = frames * pcm::frame_duration_ns(n, rate, ch);
    let total = c.pts_ns();
    assert!(
        total >= summed && total - summed < frames,
        "{total} vs {summed}"
    );
}

#[test]
fn the_48k_family_is_bit_identical_to_the_nominal_advance() {
    for (rate, ch) in [(48_000u32, 2u8), (48_000, 6), (48_000, 8), (96_000, 2)] {
        for us in FRAME_US_LADDER {
            let n = pcm::samples_per_frame(rate, us, ch);
            let mut c = PtsClock::new(rate, ch);
            for i in 1..=400u64 {
                c.advance(n);
                assert_eq!(
                    c.pts_ns(),
                    i * us as u64 * 1_000,
                    "{rate} Hz/{ch}ch at {us} µs, frame {i}"
                );
            }
        }
    }
}

#[test]
fn folding_whole_seconds_does_not_move_the_clock() {
    for (rate, ch) in [(44_100u32, 2u8), (176_400, 8), (88_200, 6), (96_000, 2)] {
        let n = pcm::samples_per_frame(rate, 1_000, ch);
        let mut c = PtsClock::new(rate, ch);
        let mut unfolded: u128 = 0;
        for _ in 0..5_000 {
            c.advance(n);
            unfolded += n as u128;
            assert!(
                c.samples < c.samples_per_sec,
                "{rate}/{ch}ch: the total was not folded"
            );
            assert_eq!(
                c.pts_ns(),
                (unfolded * 1_000_000_000 / (rate as u128 * ch as u128)) as u64,
                "{rate} Hz/{ch}ch after {unfolded} samples"
            );
        }
    }
}

#[test]
fn the_reanchor_only_ever_moves_the_clock_forward() {
    let (rate, ch) = (44_100u32, 2u8);
    let n = pcm::samples_per_frame(rate, 5_000, ch);
    let mut c = PtsClock::new(rate, ch);
    c.reanchor(1_000_000_000);
    assert_eq!(c.pts_ns(), 1_000_000_000);
    c.advance(n);
    let after = c.pts_ns();
    assert_eq!(after, 1_000_000_000 + 4_988_662);
    c.reanchor(1_000_000_000);
    assert_eq!(c.pts_ns(), after, "a late anchor must not rewind the wire");
    c.reanchor(after);
    assert_eq!(c.pts_ns(), after, "an equal anchor is not a step either");
    c.reanchor(after + 1_000_000);
    assert_eq!(c.pts_ns(), after + 1_000_000);
    c.advance(n);
    assert_eq!(c.pts_ns(), after + 1_000_000 + 4_988_662);
}

#[test]
fn the_cut_into_frames_does_not_matter_to_the_clock() {
    let mut one = PtsClock::new(44_100, 2);
    one.advance(100_000);
    let mut many = PtsClock::new(44_100, 2);
    for n in [1usize, 439, 9_560, 90_000] {
        many.advance(n);
    }
    assert_eq!(one.pts_ns(), many.pts_ns());
    assert_eq!(one.pts_ns(), 1_133_786_848);
}

const POLICY_TEXT: u8 = 1;
const POLICY_FILES: u8 = 2;
const GRANT_ALL: u32 = 0xff;
const GRANT_CLIPBOARD: u32 = 4;

const WIRE: ClipWire = ClipWire {
    grant_clipboard: GRANT_CLIPBOARD,
    policy_files: POLICY_FILES,
    flag_files: 1,
    reason_ok: 0,
    reason_policy_disabled: 1,
    reason_not_permitted: 2,
    reason_backend_unavailable: 3,
    reason_no_files: 4,
};

const ON: ClipControl = ClipControl {
    enabled: true,
    flags: 0,
};

fn state(enabled: bool, policy: u8, reason: u8) -> ClipState {
    ClipState {
        enabled,
        policy,
        reason,
    }
}

#[test]
fn clip_resolution_three_way() {
    let both = POLICY_TEXT | POLICY_FILES;

    assert_eq!(
        resolve_clip_control(&WIRE, None, false, true, ON),
        state(false, 0, WIRE.reason_policy_disabled)
    );
    assert_eq!(
        resolve_clip_control(&WIRE, None, true, true, ON),
        state(false, 0, WIRE.reason_policy_disabled)
    );

    assert_eq!(
        resolve_clip_control(&WIRE, Some(both), false, true, ON),
        state(false, both, WIRE.reason_not_permitted)
    );

    assert_eq!(
        resolve_clip_control(&WIRE, Some(both), true, false, ON),
        state(false, both, WIRE.reason_backend_unavailable)
    );
    assert_eq!(
        resolve_clip_control(
            &WIRE,
            Some(POLICY_TEXT),
            true,
            true,
            ClipControl {
                enabled: true,
                flags: WIRE.flag_files,
            }
        ),
        state(true, POLICY_TEXT, WIRE.reason_no_files)
    );
    assert_eq!(
        resolve_clip_control(&WIRE, Some(both), true, true, ON),
        state(true, both, WIRE.reason_ok)
    );
}

#[test]
fn clip_offer_needs_the_live_grant() {
    assert!(clip_offer_permitted(&WIRE, GRANT_ALL, true));

    assert!(!clip_offer_permitted(&WIRE, GRANT_ALL & !GRANT_CLIPBOARD, true));
    assert!(!clip_offer_permitted(&WIRE, 0, true));

    assert!(!clip_offer_permitted(&WIRE, GRANT_ALL & !GRANT_CLIPBOARD, false));
    assert!(!clip_offer_permitted(&WIRE, GRANT_ALL, false));
}

/// A time in nanoseconds.
fn at(ms: u64) -> u64 {
    1_000_000_000 + ms * 1_000_000
}

/// The rank of a quantile among a pad's gaps.
fn quantile(p: &PadCadence, q: f64) -> Option<u32> {
    p.percentile_us_le(((q * p.gaps as f64).ceil() as u64).max(1))
}

#[test]
fn two_pads_do_not_corrupt_each_others_cadence() {
    let mut c = MotionCadence::new(MAX_PADS);
    for i in 0..100u64 {
        c.record(0, at(i * 4));
        if i % 10 == 0 {
            c.record(1, at(i * 4));
        }
    }
    // 4 ms → bucket (2048, 4096] µs `_le`; 40 ms → (32768, 65536].
    assert_eq!(quantile(&c.pads[0], 0.5), Some(4096));
    assert_eq!(quantile(&c.pads[1], 0.5), Some(65536));
    assert_eq!(c.pads[0].gaps, 99);
    assert_eq!(c.pads[1].gaps, 9);
}

#[test]
fn a_silent_pad_records_nothing() {
    let c = MotionCadence::new(MAX_PADS);
    assert_eq!(c.pads[3].gaps, 0);
    assert_eq!(quantile(&c.pads[3], 0.5), None);
    // One sample is not a gap.
    let mut c = MotionCadence::new(MAX_PADS);
    c.record(3, at(0));
    assert_eq!(c.pads[3].gaps, 0);
}

#[test]
fn a_stall_is_counted_separately_from_the_cadence() {
    let mut c = MotionCadence::new(MAX_PADS);
    for i in 0..50u64 {
        assert!(!c.record(0, at(i * 4)), "a 4 ms gap is cadence");
    }
    assert!(c.record(0, at(5_000)), "5 s of silence is a stall");
    for i in 0..50u64 {
        assert!(!c.record(0, at(5_000 + i * 4)));
    }
    assert_eq!(c.pads[0].stalls, 1);
    assert_eq!(
        quantile(&c.pads[0], 0.95),
        Some(4096),
        "the stall leaked in"
    );
    assert!(c.pads[0].max_us < (STALL_GAP_NS / 1_000) as u32);
}

#[test]
fn percentiles_separate_the_body_from_the_tail() {
    let mut c = MotionCadence::new(MAX_PADS);
    let mut t = 0u64;
    for i in 0..100u64 {
        t += if i % 10 == 9 { 40 } else { 4 };
        c.record(0, at(t));
    }
    // 90 gaps of 4 ms, 10 of 40 ms.
    assert_eq!(quantile(&c.pads[0], 0.5), Some(4096));
    assert_eq!(quantile(&c.pads[0], 0.95), Some(65536));
    assert!((39_000..=41_000).contains(&c.pads[0].max_us));
}

#[test]
fn bucket_edges() {
    assert_eq!(bucket(0), 0);
    assert_eq!(bucket(1), 1);
    assert_eq!(bucket(2), 2);
    assert_eq!(bucket(3), 2);
    assert_eq!(bucket(4), 3);
    assert_eq!(bucket_upper_us(0), 0);
    assert_eq!(bucket_upper_us(1), 2);
    assert_eq!(bucket_upper_us(12), 4096); // 4 ms lands here
    assert_eq!(bucket(u32::MAX), BUCKETS - 1); // saturates rather than wrapping
}

#[test]
fn a_pad_past_the_table_counts_nothing() {
    let mut c = MotionCadence::new(2);
    assert!(!c.record(7, at(0)));
    assert!(!c.record(7, at(5_000)));
    assert_eq!(c.pads.len(), 2);
}

#[test]
fn reconfig_allowed_gates_gamescope_and_per_client_mode() {
    let (gamescope, kwin, mutter) = (
        Some(Compositor::Gamescope),
        Some(Compositor::Kwin),
        Some(Compositor::Mutter),
    );
    assert!(!reconfig_allowed(gamescope, false, false));
    assert!(!reconfig_allowed(gamescope, true, false));
    assert!(!reconfig_allowed(kwin, true, false));
    assert!(!reconfig_allowed(mutter, true, false));
    assert!(!reconfig_allowed(None, true, false));
    for c in [
        Compositor::Kwin,
        Compositor::Mutter,
        Compositor::Wlroots,
        Compositor::Hyprland,
    ] {
        assert!(
            reconfig_allowed(Some(c), false, false),
            "{c:?} should allow live reconfigure"
        );
    }
    assert!(reconfig_allowed(None, false, false));
}

#[test]
fn reconfig_allowed_rejects_a_monitor_mirror_on_every_backend() {
    for c in [
        Compositor::Kwin,
        Compositor::Mutter,
        Compositor::Wlroots,
        Compositor::Hyprland,
    ] {
        assert!(
            reconfig_allowed(Some(c), false, false),
            "{c:?} without a pin should still allow live reconfigure"
        );
        assert!(
            !reconfig_allowed(Some(c), false, true),
            "{c:?} mirroring a physical head must reject a resize"
        );
    }
}

#[test]
fn an_escalated_but_caught_up_encoder_stops_refusing_climbs() {
    const DEGRADE: u32 = 10;
    assert!(!encode_behind_cadence(false, 0, DEGRADE));
    assert!(!encode_behind_cadence(false, 9, DEGRADE));
    assert!(encode_behind_cadence(false, 10, DEGRADE));
    assert!(encode_behind_cadence(true, 1, DEGRADE));
    assert!(!encode_behind_cadence(true, 0, DEGRADE));
}

#[test]
fn the_behind_budget_tracks_the_source_not_the_negotiated_refresh() {
    let interval = 8_333_000u64;
    let us = |ns: u64| ns / 1_000;

    assert_eq!(cadence_budget(interval, None), interval);
    assert_eq!(
        us(cadence_budget(interval, Some(16_600_000))),
        16_600,
        "a 60 fps source's frames have 16.6 ms of real budget"
    );
    assert_eq!(us(cadence_budget(interval, Some(8_333_000))), 8_333);
    assert_eq!(cadence_budget(interval, Some(4_000_000)), interval);
    assert_eq!(cadence_budget(interval, Some(500_000_000)), interval * 4);
}

#[test]
fn recovery_marks_land_every_period_and_rephase_at_idr() {
    let period = 4;
    let mut pos = 0u32;
    let marks: Vec<bool> = (0..10)
        .map(|_| mark_recovery_boundary(&mut pos, false, period))
        .collect();
    assert_eq!(
        marks,
        vec![false, false, false, true, false, false, false, true, false, false]
    );

    let mut pos = 0u32;
    assert!(!mark_recovery_boundary(&mut pos, false, period));
    assert!(!mark_recovery_boundary(&mut pos, false, period));
    assert!(!mark_recovery_boundary(&mut pos, true, period));
    assert!(!mark_recovery_boundary(&mut pos, false, period));
    assert!(!mark_recovery_boundary(&mut pos, false, period));
    assert!(!mark_recovery_boundary(&mut pos, false, period));
    assert!(mark_recovery_boundary(&mut pos, false, period));
}

#[test]
fn a_keyframe_rephases_from_anywhere() {
    let mut pos = u32::MAX;
    assert!(!mark_recovery_boundary(&mut pos, true, 4));
    assert_eq!(pos, 0);
}

#[test]
fn the_clients_screen_stands_for_the_sources_where_there_is_hdr() {
    assert_eq!(hdr_for(Some(1), Some(2)), Some(2));
    assert_eq!(hdr_for(Some(1), None), Some(1));
    assert_eq!(hdr_for(None, Some(2)), None);
    assert_eq!(hdr_for::<u8>(None, None), None);
}
