//! Speed-test bursts: filler at a requested rate for a requested time, both held to a ceiling.

use vstd::prelude::*;

verus! {

/// Probe ceiling: above the session's own, so a probe can show headroom past it.
pub const MAX_PROBE_KBPS: u32 = 10_000_000;

pub const MAX_PROBE_MS: u32 = 5_000;

/// A filler frame: about a dozen shards at most, so one submit cannot overrun a send buffer.
pub const MIN_FILLER: u64 = 1_200;

pub const MAX_FILLER: u64 = 16_384;

#[derive(Clone, Copy, Debug, PartialEq, Eq, Structural)]
pub struct ProbeRequest {
    pub target_kbps: u32,
    pub duration_ms: u32,
}

#[derive(Clone, Copy, Debug, PartialEq, Eq, Structural)]
pub struct ProbeResult {
    pub bytes_sent: u64,
    pub packets_sent: u32,
    pub duration_ms: u32,
    pub wire_packets_sent: u32,
    pub send_dropped: u32,
}

/// A burst that will run.
#[derive(Clone, Copy, Debug, PartialEq, Eq, Structural)]
pub struct ProbePlan {
    pub target_kbps: u32,
    pub duration_ms: u32,
    pub bytes_per_sec: u64,
    /// Bytes of one filler frame.
    pub chunk: u64,
}

/// The answer to a declined probe.
pub open spec fn nothing_sent() -> ProbeResult {
    ProbeResult {
        bytes_sent: 0,
        packets_sent: 0,
        duration_ms: 0,
        wire_packets_sent: 0,
        send_dropped: 0,
    }
}

pub open spec fn held(v: int, lo: int, hi: int) -> int {
    if v < lo {
        lo
    } else if v > hi {
        hi
    } else {
        v
    }
}

/// Plans a burst. Declined for a client that cannot window probe frames (their indexes would read
/// as a loss of thousands of video frames), and for an empty request.
pub fn plan_probe(req: ProbeRequest, probe_seq: bool) -> (p: Option<ProbePlan>)
    ensures
        p is None <==> !probe_seq || req.target_kbps == 0 || req.duration_ms == 0,
        p matches Some(plan) ==> {
            &&& plan.target_kbps == held(req.target_kbps as int, 0, MAX_PROBE_KBPS as int)
            &&& plan.duration_ms == held(req.duration_ms as int, 0, MAX_PROBE_MS as int)
            &&& plan.bytes_per_sec == plan.target_kbps * 125
            &&& plan.chunk == held(
                plan.bytes_per_sec as int / 240,
                MIN_FILLER as int,
                MAX_FILLER as int,
            )
        },
{
    let target_kbps: u32 = if req.target_kbps > MAX_PROBE_KBPS {
        MAX_PROBE_KBPS
    } else {
        req.target_kbps
    };
    let duration_ms: u32 = if req.duration_ms > MAX_PROBE_MS {
        MAX_PROBE_MS
    } else {
        req.duration_ms
    };
    if !probe_seq || target_kbps == 0 || duration_ms == 0 {
        return None;
    }
    let bytes_per_sec: u64 = target_kbps as u64 * 125;
    let share: u64 = bytes_per_sec / 240;
    let chunk: u64 = if share < MIN_FILLER {
        MIN_FILLER
    } else if share > MAX_FILLER {
        MAX_FILLER
    } else {
        share
    };
    Some(ProbePlan { target_kbps, duration_ms, bytes_per_sec, chunk })
}

impl ProbePlan {
    /// The bytes the rate allows in `elapsed_ns`, held to a `u64`.
    pub open spec fn allowance(self, elapsed_ns: u64) -> int {
        held(elapsed_ns * self.bytes_per_sec / 1_000_000_000, 0, u64::MAX as int)
    }

    /// The bytes the rate allows in `elapsed_ns`.
    pub fn allowed(&self, elapsed_ns: u64) -> (bytes: u64)
        ensures
            bytes == self.allowance(elapsed_ns),
    {
        let rate: u64 = self.bytes_per_sec;
        assert(0 <= elapsed_ns * rate <= u128::MAX) by (nonlinear_arith);
        let bytes: u128 = elapsed_ns as u128 * rate as u128 / 1_000_000_000;
        if bytes > u64::MAX as u128 {
            u64::MAX
        } else {
            bytes as u64
        }
    }
}

/// A burst under way.
#[derive(Clone, Copy, Debug, PartialEq, Eq, Structural)]
pub struct ProbeBurst {
    pub plan: ProbePlan,
    pub bytes_sent: u64,
    pub packets_sent: u32,
    /// The session's packet counters when the burst began.
    pub wire_before: u64,
    pub dropped_before: u64,
}

impl ProbeBurst {
    pub fn new(plan: ProbePlan, wire_before: u64, dropped_before: u64) -> (b: ProbeBurst)
        ensures
            b == (ProbeBurst {
                plan,
                bytes_sent: 0,
                packets_sent: 0,
                wire_before,
                dropped_before,
            }),
    {
        ProbeBurst { plan, bytes_sent: 0, packets_sent: 0, wire_before, dropped_before }
    }

    /// Whether a filler frame goes out now, given the bytes the rate allows so far; books it when
    /// it does. Going by the allowance so far, jitter never overshoots the rate by more than one
    /// frame.
    pub fn pump(&mut self, allowed: u64) -> (send: bool)
        requires
            old(self).bytes_sent + old(self).plan.chunk <= u64::MAX,
            old(self).packets_sent < u32::MAX,
        ensures
            send == (old(self).bytes_sent < allowed),
            *final(self) == if send {
                ProbeBurst {
                    bytes_sent: (old(self).bytes_sent + old(self).plan.chunk) as u64,
                    packets_sent: (old(self).packets_sent + 1) as u32,
                    ..*old(self)
                }
            } else {
                *old(self)
            },
            send ==> final(self).bytes_sent < allowed + old(self).plan.chunk,
    {
        if self.bytes_sent < allowed {
            self.bytes_sent = self.bytes_sent + self.plan.chunk;
            self.packets_sent = self.packets_sent + 1;
            true
        } else {
            false
        }
    }

    /// The result: the packets the wire took are those offered less those the host dropped.
    pub fn finish(&self, elapsed_ms: u32, wire_now: u64, dropped_now: u64) -> (r: ProbeResult)
        requires
            self.wire_before <= wire_now <= self.wire_before + u32::MAX,
            self.dropped_before <= dropped_now <= self.dropped_before + u32::MAX,
        ensures
            r == (ProbeResult {
                bytes_sent: self.bytes_sent,
                packets_sent: self.packets_sent,
                duration_ms: elapsed_ms,
                send_dropped: (dropped_now - self.dropped_before) as u32,
                wire_packets_sent: held(
                    (wire_now - self.wire_before) - (dropped_now - self.dropped_before),
                    0,
                    u32::MAX as int,
                ) as u32,
            }),
    {
        let offered: u32 = (wire_now - self.wire_before) as u32;
        let send_dropped: u32 = (dropped_now - self.dropped_before) as u32;
        ProbeResult {
            bytes_sent: self.bytes_sent,
            packets_sent: self.packets_sent,
            duration_ms: elapsed_ms,
            wire_packets_sent: offered.saturating_sub(send_dropped),
            send_dropped,
        }
    }
}

/// The answer to a declined probe.
pub fn declined() -> (r: ProbeResult)
    ensures
        r == nothing_sent(),
{
    ProbeResult {
        bytes_sent: 0,
        packets_sent: 0,
        duration_ms: 0,
        wire_packets_sent: 0,
        send_dropped: 0,
    }
}

/// A speed test runs at what was asked for, up to ten gigabits and five seconds; one that asks for
/// nothing, or comes from a client that cannot take it, does not run. Its filler frames are between
/// 1200 and 16384 bytes.
pub proof fn a_speed_test_stays_within_its_ceiling(
    req: ProbeRequest,
    probe_seq: bool,
    p: Option<ProbePlan>,
)
    requires
        call_ensures(plan_probe, (req, probe_seq), p),
    ensures
        p is Some <==> probe_seq && req.target_kbps > 0 && req.duration_ms > 0,
        p matches Some(plan) ==> {
            &&& plan.target_kbps <= 10_000_000 && plan.target_kbps <= req.target_kbps
            &&& plan.target_kbps == req.target_kbps || plan.target_kbps == 10_000_000
            &&& plan.duration_ms <= 5_000 && plan.duration_ms <= req.duration_ms
            &&& plan.duration_ms == req.duration_ms || plan.duration_ms == 5_000
            &&& plan.bytes_per_sec * 8 == plan.target_kbps * 1000
            &&& 1200 <= plan.chunk <= 16_384
            &&& plan.bytes_per_sec / 240 >= 1200 && plan.bytes_per_sec / 240 <= 16_384
                ==> plan.chunk == plan.bytes_per_sec / 240
        },
{
}

/// The rate allows as many bytes as it has had time for.
pub proof fn an_allowance_follows_the_rate(p: &ProbePlan, elapsed_ns: u64, bytes: u64)
    requires
        call_ensures(ProbePlan::allowed, (p, elapsed_ns), bytes),
        elapsed_ns * p.bytes_per_sec < 1_000_000_000 * u64::MAX,
    ensures
        bytes * 1_000_000_000 <= elapsed_ns * p.bytes_per_sec < (bytes + 1) * 1_000_000_000,
{
    let x = elapsed_ns * p.bytes_per_sec;
    assert(x >= 0) by (nonlinear_arith)
        requires
            x == elapsed_ns * p.bytes_per_sec,
    ;
    assert(0 <= x / 1_000_000_000 <= u64::MAX);
}

/// A filler frame goes out while the rate allows more, is counted, and oversteps the rate by less
/// than itself; at the allowance nothing does.
pub proof fn filler_follows_the_allowance(b: &mut ProbeBurst, allowed: u64, send: bool)
    requires
        old(b).bytes_sent + old(b).plan.chunk <= u64::MAX,
        old(b).packets_sent < u32::MAX,
        call_ensures(ProbeBurst::pump, (b, allowed), send),
    ensures
        send <==> old(b).bytes_sent < allowed,
        send ==> final(b).bytes_sent == old(b).bytes_sent + old(b).plan.chunk && final(
            b).packets_sent == old(b).packets_sent + 1 && final(b).bytes_sent - old(b).plan.chunk
            < allowed,
        !send ==> *final(b) == *old(b),
        final(b).plan == old(b).plan && final(b).wire_before == old(b).wire_before,
{
}

/// A result is what the burst sent: its bytes and frames, and the packets the wire took, which
/// with those the host dropped are all that were offered.
pub proof fn a_result_is_what_was_sent(
    plan: ProbePlan,
    wire_before: u64,
    dropped_before: u64,
    fresh: ProbeBurst,
    b: &ProbeBurst,
    elapsed_ms: u32,
    wire_now: u64,
    dropped_now: u64,
    r: ProbeResult,
    d: ProbeResult,
)
    requires
        call_ensures(ProbeBurst::new, (plan, wire_before, dropped_before), fresh),
        b.wire_before <= wire_now <= b.wire_before + u32::MAX,
        b.dropped_before <= dropped_now <= b.dropped_before + u32::MAX,
        call_ensures(ProbeBurst::finish, (b, elapsed_ms, wire_now, dropped_now), r),
        call_ensures(declined, (), d),
    ensures
        fresh.bytes_sent == 0 && fresh.packets_sent == 0 && fresh.plan == plan,
        fresh.wire_before == wire_before && fresh.dropped_before == dropped_before,
        r.bytes_sent == b.bytes_sent && r.packets_sent == b.packets_sent,
        r.duration_ms == elapsed_ms,
        r.send_dropped == dropped_now - b.dropped_before,
        r.send_dropped <= wire_now - b.wire_before ==> r.wire_packets_sent + r.send_dropped
            == wire_now - b.wire_before,
        r.send_dropped > wire_now - b.wire_before ==> r.wire_packets_sent == 0,
        d.bytes_sent == 0 && d.packets_sent == 0 && d.duration_ms == 0 && d.wire_packets_sent == 0
            && d.send_dropped == 0,
{
}

} // verus!
