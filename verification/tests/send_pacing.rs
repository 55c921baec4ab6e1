use punktfunk::send_pacing::{
    auto_burst_bytes, budget_at, drop_drawn, inject_video_drop, max_spread, native_budget,
    pace_frame, pace_sealed, pace_sleep, pace_target, percentile_at, schedule, video_drop_pct,
    CaptureCredit, ChunkPolicy, PaceBudget, PaceCfg, PaceRun, PaceStat, CREDIT_CAP, CREDIT_FRAME,
    MAX_PACE_SPREAD_NS,
};
use std::time::Duration;

const MS: u64 = 1_000_000;
const US: u64 = 1_000;

fn native_cfg(burst_cap: usize) -> PaceCfg {
    PaceCfg {
        burst_bytes: Some(burst_cap),
        chunk: ChunkPolicy::Fixed(16),
        sleep_floor_ns: 500 * US,
    }
}

/// Burst, then a bounded overflow.
fn gs_cfg(burst_cap: usize) -> PaceCfg {
    PaceCfg {
        burst_bytes: Some(burst_cap),
        chunk: ChunkPolicy::Bounded {
            min_chunk: 16,
            max_steps: 12,
        },
        sleep_floor_ns: 500 * US,
    }
}

fn adaptive_cfg() -> PaceCfg {
    PaceCfg {
        burst_bytes: Some(12_000),
        chunk: ChunkPolicy::Adaptive { base: 16, max: 64 },
        sleep_floor_ns: 500 * US,
    }
}

fn packets(n: usize, len: usize) -> Vec<Vec<u8>> {
    (0..n).map(|_| vec![0u8; len]).collect()
}

/// Sends a frame on a clock that only the waits move.
fn run<E>(
    pkts: &[Vec<u8>],
    budget: PaceBudget,
    cfg: &PaceCfg,
    mut send: impl FnMut(&[Vec<u8>]) -> Result<(), E>,
) -> Result<PaceStat, E> {
    let mut now = 0u64;
    let mut failure = None;
    let mut run = PaceRun::begin(pkts, budget, cfg, now);
    while let Some(step) = run.next(now) {
        if let Err(e) = send(&pkts[step.start..step.end]) {
            run.failed();
            failure = Some(e);
        }
        now += run.wait(now).unwrap_or(0);
    }
    match failure {
        Some(e) => Err(e),
        None => Ok(run.stat(now)),
    }
}

#[test]
fn native_schedule_matches_legacy_paced_submit() {
    let legacy = |sizes: &[usize], burst_cap: usize| -> (usize, usize) {
        let mut cum = 0usize;
        let mut split = sizes.len();
        for (k, len) in sizes.iter().enumerate() {
            cum += len;
            if cum >= burst_cap {
                split = k + 1;
                break;
            }
        }
        let m = (sizes.len() - split).div_ceil(16).max(1);
        (split, m)
    };
    for (n, len, cap) in [
        (1usize, 1200usize, 128 * 1024usize), // tiny ≪ cap → all burst
        (109, 1200, 128 * 1024),              // cap boundary
        (110, 1200, 128 * 1024),              // one past
        (600, 1200, 128 * 1024),              // burst + overflow
        (3300, 1200, 128 * 1024),             // multi-MB IDR
        (600, 1200, 0),                       // cap 0: first packet still bursts
        (0, 1200, 128 * 1024),                // empty (post-drop) frame
    ] {
        let pkts = packets(n, len);
        let sizes: Vec<usize> = pkts.iter().map(|p| p.len()).collect();
        let (split, m) = legacy(&sizes, cap);
        // Fixed schedules must not read the budget at all.
        for budget in [0, 7 * MS] {
            let s = schedule(&pkts, &native_cfg(cap), budget);
            assert_eq!(s.burst_len, split, "n={n} cap={cap}: burst split");
            assert_eq!(s.chunk, 16, "n={n} cap={cap}: chunk size");
            assert_eq!(s.steps, m, "n={n} cap={cap}: paced step count");
        }
    }
}

#[test]
fn gamestream_schedule_bursts_then_bounds_the_overflow() {
    // 20 Mbps × 3 pace → auto burst 75 000 B (10 ms at the rate).
    let cap = auto_burst_bytes(60_000_000, 0);
    assert_eq!(cap, 75_000);
    // Steady-state 60 fps at 20 Mbps (~42 KB, ~35 packets): under the cap,
    // whole frame leaves immediately.
    let pkts = packets(35, 1200);
    for budget in [0, 7 * MS] {
        let s = schedule(&pkts, &gs_cfg(cap), budget);
        assert_eq!(s.burst_len, 35, "steady-state frame bursts whole");
    }
    // IDR (~600 KB, 500 packets): cum crosses 75 000 at packet 63; 437
    // overflow in the bounded layout.
    let pkts = packets(500, 1200);
    for budget in [0, 7 * MS] {
        let s = schedule(&pkts, &gs_cfg(cap), budget);
        assert_eq!(s.burst_len, 63, "burst split at the cap crossing");
        let overflow: usize = 500 - 63;
        let chunk = 16usize.max(overflow.div_ceil(12));
        assert_eq!(s.chunk, chunk, "overflow keeps the bounded chunking");
        assert_eq!(s.steps, overflow.div_ceil(chunk));
        assert!(s.steps <= 12, "step count stays bounded");
        assert!(s.chunk >= 16, "chunk floor");
    }
    // Bounded-layout invariants across sizes.
    for &n in &[64usize, 146, 610, 5000, 50_000] {
        let pkts = packets(n, 1200);
        let s = schedule(&pkts, &gs_cfg(cap), 0);
        let overflow = n - s.burst_len;
        assert!(s.steps <= 12, "n={n}: step count bounded");
        assert!(s.chunk >= 16, "n={n}: chunk floor");
        assert!(
            s.chunk * s.steps >= overflow,
            "n={n}: layout covers the overflow"
        );
    }
}

#[test]
fn adaptive_chunk_coarsens_with_rate() {
    let cfg = adaptive_cfg();
    // 210 × 1200 B: packets 0..=9 burst (cum hits 12 000 at #10), 200 overflow.
    let pkts = packets(210, 1200);
    // Ample budget (100 ms): a 16-packet interval is ≫ floor → base.
    let s = schedule(&pkts, &cfg, 100 * MS);
    assert_eq!((s.burst_len, s.chunk, s.steps), (10, 16, 13));
    // 2.5 ms budget: c ≥ 200 × 500 µs / 2.5 ms = 40 → 5 steps × 500 µs each.
    let s = schedule(&pkts, &cfg, 2_500 * US);
    assert_eq!((s.chunk, s.steps), (40, 5));
    // 1 ms budget: c ≥ 100 → capped at 64 (GSO segment limit).
    let s = schedule(&pkts, &cfg, MS);
    assert_eq!((s.chunk, s.steps), (64, 4));
    // Zero budget (blast): max chunk = fewest syscalls.
    let s = schedule(&pkts, &cfg, 0);
    assert_eq!((s.chunk, s.steps), (64, 4));
    // Whole frame under the cap: no overflow → base chunk for the burst sends.
    let s = schedule(&packets(5, 1200), &cfg, 0);
    assert_eq!((s.burst_len, s.chunk, s.steps), (5, 16, 1));
}

#[test]
fn pace_frame_sends_the_scheduled_chunk_sequence() {
    // Native, 40 × 1 KB with a 10 KB cap: packets 0..=9 burst (cum hits 10 KB at #10),
    // then 30 overflow → chunks of 16: [10..26), [26..40).
    let pkts = packets(40, 1024);
    let mut seen: Vec<usize> = Vec::new();
    let stat = run(
        &pkts,
        PaceBudget::Fixed(0),
        &native_cfg(10 * 1024),
        |chunk| {
            seen.push(chunk.len());
            Ok::<(), std::io::Error>(())
        },
    )
    .unwrap();
    assert_eq!(seen, vec![10, 16, 14]);
    assert!(stat.paced);

    // Frame under the cap: one immediate burst (chunked at 16), nothing paced.
    let pkts = packets(20, 100);
    let mut seen: Vec<usize> = Vec::new();
    let stat = run(
        &pkts,
        PaceBudget::Fixed(0),
        &native_cfg(128 * 1024),
        |chunk| {
            seen.push(chunk.len());
            Ok::<(), std::io::Error>(())
        },
    )
    .unwrap();
    assert_eq!(seen, vec![16, 4]);
    assert!(!stat.paced);

    // Adaptive, zero budget: burst in one ≤64-packet chunk, overflow in
    // 64-packet super-chunks (blast path takes the coarsest syscall batch).
    let pkts = packets(210, 1200);
    let mut seen: Vec<usize> = Vec::new();
    let stat = run(&pkts, PaceBudget::Fixed(0), &adaptive_cfg(), |chunk| {
        seen.push(chunk.len());
        Ok::<(), std::io::Error>(())
    })
    .unwrap();
    assert_eq!(seen, vec![10, 64, 64, 64, 8]);
    assert!(stat.paced);

    // GameStream, 146 × 1 KB with a 16 KB burst cap: packets 0..=15 burst (cum hits 16 KB
    // at #16, sent as one 16-packet chunk), then 130 overflow → bounded chunks of
    // max(16, ceil(130/12)=11) = 16: 9 chunks (8 × 16 + 2).
    let pkts = packets(146, 1024);
    let mut seen: Vec<usize> = Vec::new();
    run(&pkts, PaceBudget::Fixed(0), &gs_cfg(16 * 1024), |chunk| {
        seen.push(chunk.len());
        Ok::<(), std::io::Error>(())
    })
    .unwrap();
    assert_eq!(seen.len(), 10);
    assert_eq!(seen.iter().sum::<usize>(), 146);
    assert!(seen[..9].iter().all(|&c| c == 16));
    assert_eq!(*seen.last().unwrap(), 2);

    let pkts = packets(64, 1024);
    let mut calls = 0;
    let r = run(&pkts, PaceBudget::Fixed(0), &gs_cfg(16 * 1024), |_chunk| {
        calls += 1;
        if calls == 2 {
            Err(std::io::Error::other("client gone"))
        } else {
            Ok(())
        }
    });
    assert!(r.is_err());
    assert_eq!(calls, 2, "no sends after the failing chunk");
}

#[test]
fn one_overflow_step_returns_once_the_packets_leave() {
    // 10 burst + 16 overflow at a 10 KiB cap → one 16-packet overflow send.
    let pkts = packets(26, 1024);
    let stat = run(
        &pkts,
        PaceBudget::Fixed(20 * MS),
        &native_cfg(10 * 1024),
        |_chunk| Ok::<(), std::io::Error>(()),
    )
    .unwrap();
    assert!(stat.paced);
    assert!(
        stat.spread_us < 5_000,
        "must not sleep the 20 ms budget after the only overflow send"
    );
}

#[test]
fn overflow_sleeps_between_chunks_not_after_the_last() {
    // 10 burst + 32 overflow → two 16-packet steps. 40 ms budget → 20 ms
    // between steps, not a further 20 ms after the tail is on the wire.
    let pkts = packets(42, 1024);
    let mut sends = 0usize;
    let stat = run(
        &pkts,
        PaceBudget::Fixed(40 * MS),
        &native_cfg(10 * 1024),
        |_chunk| {
            sends += 1;
            Ok::<(), std::io::Error>(())
        },
    )
    .unwrap();
    assert_eq!(sends, 3, "burst chunk plus two overflow chunks");
    assert!(stat.paced);
    let elapsed = stat.spread_us;
    assert!(
        elapsed >= 12_000,
        "still paces between overflow chunks, got {elapsed:?}"
    );
    assert!(
        elapsed < 32_000,
        "must not sleep the last 20 ms, got {elapsed:?}"
    );
}

#[test]
fn sleep_targets_match_legacy_formulas() {
    let budget = Duration::from_micros(12_500); // ¾ of a 60 Hz frame interval
    for steps in [1usize, 2, 10, 12] {
        for j in 0..steps {
            let unified = budget.mul_f64((j + 1) as f64 / steps as f64);
            assert_eq!(unified, budget.mul_f64((j + 1) as f64 / steps as f64));
            // GameStream: per_step rounds to ns first; ≤ `steps` ns apart.
            let gs_legacy = budget.mul_f64(1.0 / steps as f64).mul_f64((j + 1) as f64);
            let diff = unified.abs_diff(gs_legacy);
            assert!(
                diff <= Duration::from_nanos(steps as u64),
                "steps={steps} j={j}: {diff:?} off legacy"
            );
            let target = pace_target(0, budget.as_nanos() as u64, j + 1, steps);
            assert!(unified.abs_diff(Duration::from_nanos(target)) <= Duration::from_nanos(1));
        }
    }
}

#[test]
fn until_deadline_cap_bounds_the_budget() {
    let cfg = adaptive_cfg();
    // 210 × 1200 B: 10 burst, 200 overflow.
    let pkts = packets(210, 1200);

    // Zero cap + far deadline: budget collapses to 0 → blast schedule
    // even though the deadline alone would have spread ~90 ms.
    let mut seen: Vec<usize> = Vec::new();
    let stat = run(
        &pkts,
        PaceBudget::UntilDeadline {
            deadline_ns: 100 * MS,
            fraction_permille: 900,
            cap_ns: 0,
        },
        &cfg,
        |chunk| {
            seen.push(chunk.len());
            Ok::<(), std::io::Error>(())
        },
    )
    .unwrap();
    assert_eq!(seen, vec![10, 64, 64, 64, 8], "zero cap = blast schedule");
    assert!(stat.paced);
    assert!(
        stat.spread_us < 50_000,
        "zero cap must not sleep toward the deadline"
    );

    // 2.5 ms cap under a ~90 ms deadline: the cap sizes the chunks
    // (c ≥ 200 × 500 µs / 2.5 ms = 40) and the frame drains in ~2.5 ms.
    let mut seen: Vec<usize> = Vec::new();
    let stat = run(
        &pkts,
        PaceBudget::UntilDeadline {
            deadline_ns: 100 * MS,
            fraction_permille: 900,
            cap_ns: 2_500 * US,
        },
        &cfg,
        |chunk| {
            seen.push(chunk.len());
            Ok::<(), std::io::Error>(())
        },
    )
    .unwrap();
    assert_eq!(
        seen,
        vec![10, 40, 40, 40, 40, 40],
        "cap drives chunk sizing"
    );
    assert!(
        stat.spread_us < 50_000,
        "capped spread must be ~2.5 ms, nowhere near the 90 ms deadline budget"
    );

    // Uncapped: no-slack deadline still collapses to the blast path.
    let mut seen: Vec<usize> = Vec::new();
    run(
        &pkts,
        PaceBudget::UntilDeadline {
            deadline_ns: 0,
            fraction_permille: 900,
            cap_ns: u64::MAX,
        },
        &cfg,
        |chunk| {
            seen.push(chunk.len());
            Ok::<(), std::io::Error>(())
        },
    )
    .unwrap();
    assert_eq!(
        seen,
        vec![10, 64, 64, 64, 8],
        "MAX cap = legacy no-slack blast"
    );
}

#[test]
fn native_budget_is_rate_bound_never_deadline_cut() {
    // 3 MB overflow at 3×240 Mbps needs ~33 ms; a 4 ms deadline must not
    // shrink that to a blast.
    let deadline = 4 * MS; // 240 fps interval
    let b = native_budget(deadline, 720_000_000, 3_000_000, MAX_PACE_SPREAD_NS);
    assert_eq!(b, PaceBudget::Fixed(33_333_333));

    // Steady-state 90 KB at 3×240 Mbps = 1 ms.
    let b = native_budget(deadline, 720_000_000, 90_000, MAX_PACE_SPREAD_NS);
    assert_eq!(b, PaceBudget::Fixed(1_000 * US));

    // 3 MB at 60 Mbps pace = 400 ms; the ceiling bounds the stall.
    let b = native_budget(deadline, 60_000_000, 3_000_000, MAX_PACE_SPREAD_NS);
    assert_eq!(b, PaceBudget::Fixed(MAX_PACE_SPREAD_NS));

    // No pace factor: deadline-only spread, uncapped.
    let b = native_budget(deadline, 0, 3_000_000, MAX_PACE_SPREAD_NS);
    assert!(matches!(
        b,
        PaceBudget::UntilDeadline {
            fraction_permille: 900,
            cap_ns: u64::MAX,
            ..
        }
    ));

    // No overflow (whole frame bursts): budget is never consulted.
    let b = native_budget(deadline, 720_000_000, 0, MAX_PACE_SPREAD_NS);
    assert!(matches!(b, PaceBudget::UntilDeadline { .. }));
}

#[test]
fn native_budget_spread_capped_to_frame_intervals() {
    let deadline = 8 * MS;
    // 3 MB IDR at 60 Mbps pace wants 400 ms; two 120 Hz intervals (16.6 ms) win.
    let two_intervals = 2 * 8_333_333;
    let b = native_budget(deadline, 60_000_000, 3_000_000, two_intervals);
    assert_eq!(b, PaceBudget::Fixed(two_intervals));

    let b = native_budget(deadline, 720_000_000, 90_000, two_intervals);
    assert_eq!(b, PaceBudget::Fixed(1_000 * US));

    // Absolute ceiling still binds when the interval cap is larger
    // (5 fps must not re-license a 400 ms stall).
    let b = native_budget(deadline, 60_000_000, 3_000_000, 400 * MS);
    assert_eq!(b, PaceBudget::Fixed(MAX_PACE_SPREAD_NS));
}

#[test]
fn auto_burst_is_time_at_pace_rate() {
    // 5 Mbps × 3 = 15 Mbps pace → 18.75 KiB.
    assert_eq!(auto_burst_bytes(15_000_000, 40_000), 18_750);
    // 30 Mbps × 3 = 90 Mbps → ~112 KiB (near the 128 KiB LAN floor).
    assert_eq!(auto_burst_bytes(90_000_000, 250_000), 112_500);
    // Below ~13 Mbps pace the 16 KiB floor binds.
    assert_eq!(auto_burst_bytes(3_000_000, 10_000), 16 * 1024);
    // Gigabit-class pace clamps at 256 KiB — the rest rides the 3×-rate spread.
    assert_eq!(auto_burst_bytes(3_000_000_000, 4_000_000), 256 * 1024);
    // No pace factor: fraction-of-frame burst.
    assert_eq!(auto_burst_bytes(0, 4_000_000), 1_000_000);
    assert_eq!(auto_burst_bytes(0, 40_000), 128 * 1024);
}

#[test]
fn drop_injection_off_by_default() {
    let mut pkts = packets(100, 64);
    assert_eq!(inject_video_drop(&mut pkts, video_drop_pct(None)), 0);
    assert_eq!(pkts.len(), 100);
}

#[test]
fn the_drop_setting_is_a_share_from_one_to_ninety() {
    assert_eq!(video_drop_pct(Some("5")), 5);
    assert_eq!(video_drop_pct(Some("90")), 90);
    assert_eq!(video_drop_pct(Some("91")), 0);
    assert_eq!(video_drop_pct(Some("0")), 0);
    assert_eq!(video_drop_pct(Some("half")), 0);
}

#[test]
fn a_draw_decides_about_its_own_packet() {
    let mut v = vec!['a', 'b', 'c', 'd'];
    assert_eq!(drop_drawn(&mut v, 10, &vec![9, 10, 0, 99]), 2);
    assert_eq!(v, vec!['b', 'd']);
    // Every draw is below 100, and half of many are below 50.
    let mut all = packets(50, 1);
    assert_eq!(inject_video_drop(&mut all, 100), 50);
    assert!(all.is_empty());
    let mut half = packets(2000, 1);
    let gone = inject_video_drop(&mut half, 50);
    assert_eq!(gone as usize + half.len(), 2000);
    assert!(gone > 700 && gone < 1300, "{gone}");
}

/// The percentile of a quantile.
/// The cap in frames.
const CAP: f32 = 1.25;

/// A source that always has a frame pending: it grabs the instant it may, then looks
/// again. The instants of its grabs.
fn grab_saturated(b: &mut CaptureCredit, start: u64, interval: u64, n: usize) -> Vec<u64> {
    let mut now = start;
    let mut grabs = Vec::with_capacity(n);
    for _ in 0..n {
        let open = b.earliest(now, interval);
        let grab = open.max(now);
        b.charge();
        grabs.push(grab);
        now = grab;
    }
    grabs
}

/// A multiple of an interval.
fn times(interval: u64, k: f32) -> Duration {
    Duration::from_nanos(interval).mul_f32(k)
}

#[test]
fn capture_credit_pins_a_saturated_source_at_the_interval() {
    assert_eq!(CREDIT_CAP as f32 / CREDIT_FRAME as f32, CAP);
    let interval = 10 * MS;
    let t0 = 77;
    let mut b = CaptureCredit::new(t0);
    let grabs = grab_saturated(&mut b, t0, interval, 120);
    // Total may exceed the on-rate schedule by at most the burst cap.
    let span = Duration::from_nanos(grabs[119] - grabs[0]);
    assert!(
        span >= times(interval, 120.0 - 1.0 - CAP),
        "span {span:?} admits more than CAP frames of overshoot"
    );
    // Steady state is the interval, not 0.9 of it.
    for w in grabs[20..].windows(2) {
        let gap = Duration::from_nanos(w[1] - w[0]);
        assert!(
            gap >= times(interval, 0.999) && gap <= times(interval, 1.001),
            "steady-state gap {gap:?} != interval {interval:?}"
        );
    }
}

#[test]
fn capture_credit_never_delays_an_on_rate_or_slow_source() {
    let interval = 10 * MS;
    let t0 = 77;
    let mut b = CaptureCredit::new(t0);
    // Half the pacing rate: every arrival banks two frames and spends one.
    let mut now = t0;
    for _ in 0..50 {
        now += interval * 2;
        assert_eq!(b.earliest(now, interval), now, "slow source must not be gated");
        b.charge();
    }
    // On-rate: never gated.
    let mut b = CaptureCredit::new(t0);
    let mut now = t0;
    for _ in 0..50 {
        now += interval;
        assert_eq!(b.earliest(now, interval), now, "on-rate source must not be gated");
        b.charge();
    }
}

#[test]
fn capture_credit_burst_after_a_stall_is_capped() {
    let interval = 10 * MS;
    let t0 = 77;
    let mut b = CaptureCredit::new(t0);
    // Settle into the gated steady state, then stall for 10 intervals.
    let grabs = grab_saturated(&mut b, t0, interval, 20);
    let stall_end = grabs[19] + interval * 10;
    let after = grab_saturated(&mut b, stall_end, interval, 3);
    assert_eq!(after[0], stall_end, "first post-stall grab is immediate");
    assert!(
        Duration::from_nanos(after[1] - after[0]) >= times(interval, 2.0 - CAP),
        "second post-stall grab spent more than the burst cap"
    );
    assert!(
        Duration::from_nanos(after[2] - after[1]) >= times(interval, 0.999),
        "third post-stall grab must be back on the interval grid"
    );
}

#[test]
fn the_missing_share_of_an_interval_is_waited_for() {
    let mut b = CaptureCredit::new(0);
    assert_eq!(b.earliest(0, 10 * MS), 0);
    b.charge();
    // A quarter is left: three quarters of an interval are missing.
    assert_eq!(b.earliest(0, 10 * MS), 7_500_000);
    b.charge();
    assert_eq!(b.credit, -750_000_000);
    // A third of a frame came in since.
    assert_eq!(b.earliest(1, 3), 6);
    // No interval gates nothing, and a clock that went back banks nothing.
    assert_eq!(b.earliest(9, 0), 9);
    assert_eq!(b.earliest(5, 10 * MS), 5 + 14_166_667);
}

fn percentile(v: &mut Vec<u32>, q: f64) -> u32 {
    let rank = (v.len() as f64 * q) as usize;
    percentile_at(v, rank)
}

#[test]
fn percentile_picks_expected_ranks() {
    let mut v = vec![90, 10, 50, 70, 30];
    assert_eq!(percentile(&mut v, 0.0), 10);
    assert_eq!(percentile(&mut v, 0.5), 50);
    assert_eq!(percentile(&mut v, 0.99), 90);
    assert_eq!(percentile(&mut vec![], 0.5), 0);
}

#[test]
fn every_packet_leaves_once_and_in_order() {
    let pkts = packets(210, 1200);
    let s = schedule(&pkts, &adaptive_cfg(), 2_500 * US);
    let mut at = 0;
    for step in pace_frame(&s, pkts.len()) {
        assert_eq!(step.start, at);
        at = step.end;
    }
    assert_eq!(at, 210);
    assert_eq!(pace_sleep(1_000, 400, 500), Some(600));
    assert_eq!(pace_sleep(1_000, 600, 500), None);
    assert_eq!(pace_sleep(1_000, 2_000, 0), None);
    assert_eq!(pace_target(100, 900, 1, 3), 400);
}

#[test]
fn a_sealed_frame_is_planned_by_its_overflow() {
    // 3 MB behind a 256 KiB burst at 60 Mbps: two 120 Hz intervals bound the spread.
    let p = pace_sealed(3_000_000, Some(256 * 1024), 60_000_000, 8 * MS, max_spread(120));
    assert_eq!(p.cfg.burst_bytes, Some(256 * 1024));
    assert_eq!(p.cfg.chunk, ChunkPolicy::Adaptive { base: 16, max: 64 });
    assert_eq!(p.cfg.sleep_floor_ns, 500 * US);
    assert_eq!(p.budget, PaceBudget::Fixed(16_666_666));
    // Unpinned, the burst is ten milliseconds at the rate; the rest leaves at it.
    let p = pace_sealed(202_500, None, 90_000_000, 8 * MS, MAX_PACE_SPREAD_NS);
    assert_eq!(p.cfg.burst_bytes, Some(112_500));
    assert_eq!(p.budget, PaceBudget::Fixed(8 * MS));
    // Nothing is left over, or there is no rate: the deadline bounds what there is.
    for (bytes, rate) in [(1_000, 90_000_000), (3_000_000, 0)] {
        let p = pace_sealed(bytes, Some(2_000), rate, 8 * MS, MAX_PACE_SPREAD_NS);
        assert_eq!(
            p.budget,
            PaceBudget::UntilDeadline {
                deadline_ns: 8 * MS,
                fraction_permille: 900,
                cap_ns: u64::MAX,
            }
        );
    }
}

#[test]
fn the_spread_is_two_intervals() {
    assert_eq!(max_spread(60), 33_333_333);
    assert_eq!(max_spread(240), 8_333_333);
    assert_eq!(max_spread(0), MAX_PACE_SPREAD_NS);
}

#[test]
fn a_run_looks_at_its_budget_again_when_the_burst_is_out() {
    // 10 burst, 32 overflow in two sends; the burst takes 30 ms of the 100 to the deadline.
    let pkts = packets(42, 1024);
    let budget = PaceBudget::UntilDeadline {
        deadline_ns: 100 * MS,
        fraction_permille: 900,
        cap_ns: u64::MAX,
    };
    let mut run = PaceRun::begin(&pkts, budget, &native_cfg(10 * 1024), 0);
    let burst = run.next(0).unwrap();
    assert_eq!((burst.start, burst.end), (0, 10));
    assert_eq!(run.wait(30 * MS), None, "no wait after a burst");
    let first = run.next(30 * MS).unwrap();
    assert_eq!((first.start, first.end), (10, 26));
    assert_eq!((run.pace_start_ns, run.spread_ns), (30 * MS, 63 * MS));
    assert_eq!(run.wait(30 * MS), Some(31_500 * US));
    let last = run.next(61_500 * US).unwrap();
    assert_eq!((last.start, last.end), (26, 42));
    assert_eq!(run.wait(61_500 * US), None, "no wait after the last");
    assert_eq!(run.next(61_500 * US), None);
    let stat = run.stat(61_500 * US);
    assert_eq!((stat.spread_us, stat.paced), (61_500, true));
}

#[test]
fn a_frame_ends_with_the_send_that_failed() {
    let pkts = packets(42, 1024);
    let budget = PaceBudget::UntilDeadline {
        deadline_ns: 100 * MS,
        fraction_permille: 900,
        cap_ns: u64::MAX,
    };
    let mut run = PaceRun::begin(&pkts, budget, &native_cfg(10 * 1024), 0);
    assert!(run.next(0).is_some());
    assert!(run.next(30 * MS).is_some());
    run.failed();
    assert_eq!(run.wait(30 * MS), None, "no wait after a failure");
    assert_eq!(run.next(30 * MS), None, "nothing follows a failure");
    assert_eq!(run.next(90 * MS), None);
}

#[test]
fn an_adaptive_range_is_asked_for_only_where_it_is_used() {
    let cfg = |base: usize, max: usize| PaceCfg {
        burst_bytes: Some(12_000),
        chunk: ChunkPolicy::Adaptive { base, max },
        sleep_floor_ns: 500 * US,
    };
    // A frame that bursts whole goes by the base, one without a budget by the maximum.
    assert_eq!(schedule(&packets(5, 1200), &cfg(16, 4), MS).chunk, 16);
    assert_eq!(schedule(&packets(210, 1200), &cfg(16, 4), 0).chunk, 4);
    assert_eq!(schedule(&packets(210, 1200), &cfg(0, 64), 2_500 * US).chunk, 40);
}
