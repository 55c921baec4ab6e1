//! Packet scheduling for video sends: a microburst that leaves at once, then the overflow in
//! chunks spread over a bitrate-derived budget.
//!
//! The native plane coarsens chunks so that the waits between them stay above the scheduler's
//! floor; the GameStream plane bounds the number of waits instead. Durations are nanoseconds.

use crate::text;
use rand::Rng;
use vstd::arithmetic::div_mod::{
    lemma_fundamental_div_mod, lemma_mod_bound,
};
use vstd::prelude::*;

verus! {

/// Ceiling on one native frame's paced spread: past this the send thread is parked too long.
pub const MAX_PACE_SPREAD_NS: u64 = 100_000_000;

/// The burst of an unknown rate, at least.
pub const BURST_UNRATED: usize = 131_072;

pub const BURST_MIN: usize = 16_384;

pub const BURST_MAX: usize = 262_144;

/// What a frame's send took.
#[derive(Clone, Copy, Debug, PartialEq, Eq, Structural)]
pub struct PaceStat {
    pub spread_us: u32,
    pub paced: bool,
}

/// How overflow is cut into sends.
#[derive(Clone, Copy, Debug, PartialEq, Eq, Structural)]
pub enum ChunkPolicy {
    /// Chunks of this many packets; the number of steps follows the frame.
    Fixed(usize),
    /// The smallest chunk from `base` up to `max` that keeps every wait at or above the floor. A
    /// zero budget takes `max`.
    Adaptive { base: usize, max: usize },
    /// At least `min_chunk` packets, and no more than `max_steps` sends.
    Bounded { min_chunk: usize, max_steps: usize },
}

/// How long a frame may be spread.
#[derive(Clone, Copy, Debug, PartialEq, Eq, Structural)]
pub enum PaceBudget {
    /// The time left until the deadline after the burst, times `fraction_permille` thousandths,
    /// up to `cap_ns`.
    UntilDeadline { deadline_ns: u64, fraction_permille: u32, cap_ns: u64 },
    /// Exactly this long.
    Fixed(u64),
}

#[derive(Clone, Copy, Debug, PartialEq, Eq, Structural)]
pub struct PaceCfg {
    /// Bytes that leave before pacing; `None` for no burst. `Some(0)` still bursts the first
    /// packet: the packet that crosses the cap goes with the burst.
    pub burst_bytes: Option<usize>,
    pub chunk: ChunkPolicy,
    /// Waits shorter than this are skipped.
    pub sleep_floor_ns: u64,
}

/// The first `burst_len` packets leave at once in groups of `chunk`; the rest in `steps` sends.
#[derive(Clone, Copy, Debug, PartialEq, Eq, Structural)]
pub struct PaceSchedule {
    pub burst_len: usize,
    pub chunk: usize,
    pub steps: usize,
}

pub open spec fn least(a: int, b: int) -> int {
    if a < b {
        a
    } else {
        b
    }
}

pub open spec fn most(a: int, b: int) -> int {
    if a > b {
        a
    } else {
        b
    }
}

/// Division rounded up.
pub open spec fn div_up(a: int, b: int) -> int {
    if a % b == 0 {
        a / b
    } else {
        a / b + 1
    }
}

/// The native budget of one frame. With a pace rate and an overflow, the overflow's wire time at
/// that rate, held to `max_spread_ns` and [`MAX_PACE_SPREAD_NS`] and never cut short by the
/// deadline. Otherwise nine tenths of the time to the deadline.
pub fn native_budget(
    deadline_ns: u64,
    pace_rate_bps: u64,
    overflow_bytes: u64,
    max_spread_ns: u64,
) -> (b: PaceBudget)
    requires
        overflow_bytes * 8 <= u64::MAX,
    ensures
        b == if pace_rate_bps > 0 && overflow_bytes > 0 {
            PaceBudget::Fixed(
                least(
                    least(wire_time(overflow_bytes, pace_rate_bps), max_spread_ns as int),
                    MAX_PACE_SPREAD_NS as int,
                ) as u64,
            )
        } else {
            PaceBudget::UntilDeadline { deadline_ns, fraction_permille: 900, cap_ns: u64::MAX }
        },
{
    if pace_rate_bps > 0 && overflow_bytes > 0 {
        let bits: u64 = overflow_bytes * 8;
        let scaled: u64 = match bits.checked_mul(1_000_000_000) {
            Some(x) => x,
            None => u64::MAX,
        };
        let wire: u64 = scaled / pace_rate_bps;
        let capped: u64 = if wire < max_spread_ns {
            wire
        } else {
            max_spread_ns
        };
        PaceBudget::Fixed(
            if capped < MAX_PACE_SPREAD_NS {
                capped
            } else {
                MAX_PACE_SPREAD_NS
            },
        )
    } else {
        PaceBudget::UntilDeadline { deadline_ns, fraction_permille: 900, cap_ns: u64::MAX }
    }
}

/// Nanoseconds `bytes` take at `rate_bps`; a product past 64 bits counts as the largest one.
pub open spec fn wire_time(bytes: u64, rate_bps: u64) -> int {
    least(bytes * 8 * 1_000_000_000, u64::MAX as int) / rate_bps as int
}

/// Bytes that leave unpaced: ten milliseconds at the pace rate, held to 16 to 256 KiB. Without a
/// rate, a quarter of the frame, at least 128 KiB.
pub fn auto_burst_bytes(pace_rate_bps: u64, wire_bytes: usize) -> (n: usize)
    requires
        pace_rate_bps * 10 <= u64::MAX,
    ensures
        n == if pace_rate_bps == 0 {
            most(wire_bytes as int / 4, BURST_UNRATED as int)
        } else {
            least(most(pace_rate_bps * 10 / 8000, BURST_MIN as int), BURST_MAX as int)
        },
{
    if pace_rate_bps == 0 {
        let quarter: usize = wire_bytes / 4;
        return if quarter > BURST_UNRATED {
            quarter
        } else {
            BURST_UNRATED
        };
    }
    let bytes: u64 = pace_rate_bps * 10 / 8000;
    if bytes <= BURST_MIN as u64 {
        BURST_MIN
    } else if bytes >= BURST_MAX as u64 {
        BURST_MAX
    } else {
        bytes as usize
    }
}

/// The chunks native overflow is cut into, up to what one offloaded send takes.
pub const NATIVE_CHUNK: usize = 16;

pub const NATIVE_CHUNK_MAX: usize = 64;

/// Waits below the scheduler's jitter are skipped.
pub const NATIVE_SLEEP_FLOOR_NS: u64 = 500_000;

/// How a sealed native frame is sent.
#[derive(Clone, Copy, Debug, PartialEq, Eq, Structural)]
pub struct SealedPlan {
    pub cfg: PaceCfg,
    pub budget: PaceBudget,
}

/// The burst of a sealed frame: the pinned one, or what [`auto_burst_bytes`] gives.
pub open spec fn sealed_burst(burst_cap: Option<usize>, pace_rate_bps: u64, wire_bytes: usize) -> int {
    match burst_cap {
        Some(cap) => cap as int,
        None => if pace_rate_bps == 0 {
            most(wire_bytes as int / 4, BURST_UNRATED as int)
        } else {
            least(most(pace_rate_bps * 10 / 8000, BURST_MIN as int), BURST_MAX as int)
        },
    }
}

/// Plans the send of a sealed frame of `wire_bytes`: the burst leaves at once; what is past it is
/// spread at the pace rate, or towards the deadline without one.
pub fn pace_sealed(
    wire_bytes: usize,
    burst_cap: Option<usize>,
    pace_rate_bps: u64,
    deadline_ns: u64,
    max_spread_ns: u64,
) -> (p: SealedPlan)
    requires
        pace_rate_bps * 10 <= u64::MAX,
        wire_bytes * 8 <= u64::MAX,
    ensures
        ({
            let burst = sealed_burst(burst_cap, pace_rate_bps, wire_bytes);
            let overflow = most(wire_bytes - burst, 0);
            &&& p.cfg == (PaceCfg {
                burst_bytes: Some(burst as usize),
                chunk: ChunkPolicy::Adaptive { base: NATIVE_CHUNK, max: NATIVE_CHUNK_MAX },
                sleep_floor_ns: NATIVE_SLEEP_FLOOR_NS,
            })
            &&& p.budget == if pace_rate_bps > 0 && overflow > 0 {
                PaceBudget::Fixed(
                    least(
                        least(wire_time(overflow as u64, pace_rate_bps), max_spread_ns as int),
                        MAX_PACE_SPREAD_NS as int,
                    ) as u64,
                )
            } else {
                PaceBudget::UntilDeadline { deadline_ns, fraction_permille: 900, cap_ns: u64::MAX }
            }
        }),
{
    let burst: usize = match burst_cap {
        Some(cap) => cap,
        None => auto_burst_bytes(pace_rate_bps, wire_bytes),
    };
    let overflow: u64 = wire_bytes.saturating_sub(burst) as u64;
    SealedPlan {
        cfg: PaceCfg {
            burst_bytes: Some(burst),
            chunk: ChunkPolicy::Adaptive { base: NATIVE_CHUNK, max: NATIVE_CHUNK_MAX },
            sleep_floor_ns: NATIVE_SLEEP_FLOOR_NS,
        },
        budget: native_budget(deadline_ns, pace_rate_bps, overflow, max_spread_ns),
    }
}

/// What the channel to the send thread absorbs: two frame intervals at `hz`; the absolute ceiling
/// while the rate is unknown.
pub fn max_spread(hz: u32) -> (ns: u64)
    ensures
        ns == if hz == 0 {
            MAX_PACE_SPREAD_NS as int
        } else {
            2_000_000_000int / hz as int
        },
{
    if hz == 0 {
        MAX_PACE_SPREAD_NS
    } else {
        2_000_000_000 / hz as u64
    }
}

/// A paced frame is never parked past the ceiling, whatever its size and rate.
pub proof fn a_paced_spread_is_bounded(overflow_bytes: u64, pace_rate_bps: u64, max_spread_ns: u64)
    requires
        pace_rate_bps > 0,
    ensures
        0 <= least(
            least(wire_time(overflow_bytes, pace_rate_bps), max_spread_ns as int),
            MAX_PACE_SPREAD_NS as int,
        ) <= MAX_PACE_SPREAD_NS,
{
    let scaled = least(overflow_bytes * 8 * 1_000_000_000, u64::MAX as int);
    assert(scaled / pace_rate_bps as int >= 0) by (nonlinear_arith)
        requires
            scaled >= 0,
            pace_rate_bps > 0,
    ;
}

/// Bytes of the first `k` packets.
pub open spec fn bytes_of(lens: Seq<usize>, k: int) -> int
    decreases k,
{
    if k <= 0 {
        0
    } else {
        bytes_of(lens, k - 1) + lens[k - 1]
    }
}

/// `r` packets burst: the packet that reaches the cap goes along, and the whole frame when none
/// does.
pub open spec fn is_burst(lens: Seq<usize>, cap: Option<usize>, r: int) -> bool {
    match cap {
        None => r == 0,
        Some(cap) => {
            &&& 0 <= r <= lens.len()
            &&& forall|j: int| 1 <= j < r ==> #[trigger] bytes_of(lens, j) < cap
            &&& r < lens.len() ==> r >= 1 && bytes_of(lens, r) >= cap
        },
    }
}

/// Some packet is left over after the burst.
pub open spec fn overflows(lens: Seq<usize>, cap: Option<usize>) -> bool {
    match cap {
        None => lens.len() > 0,
        Some(cap) => exists|j: int|
            1 <= j < lens.len() && #[trigger] bytes_of(lens, j) >= cap,
    }
}

/// The policy gives chunks of at least one packet for this frame. An adaptive one is asked only
/// for the bound it is cut to: `base` for a frame that bursts whole, `max` without a budget, and
/// otherwise a range that is not empty.
pub open spec fn policy_ok(
    p: ChunkPolicy,
    lens: Seq<usize>,
    cap: Option<usize>,
    floor_ns: u64,
    budget_ns: u64,
) -> bool {
    match p {
        ChunkPolicy::Fixed(c) => c > 0,
        ChunkPolicy::Adaptive { base, max } => if !overflows(lens, cap) {
            base > 0
        } else if budget_ns == 0 {
            max > 0
        } else {
            base <= max && max > 0 && (base > 0 || floor_ns > 0)
        },
        ChunkPolicy::Bounded { min_chunk, max_steps } => max_steps > 0 && (min_chunk > 0
            || overflows(lens, cap)),
    }
}

/// The chunk size for `overflow` packets.
pub open spec fn chunk_for(
    p: ChunkPolicy,
    overflow: int,
    floor_ns: u64,
    budget_ns: u64,
) -> int {
    match p {
        ChunkPolicy::Fixed(c) => c as int,
        ChunkPolicy::Adaptive { base, max } => if overflow == 0 {
            base as int
        } else if budget_ns == 0 {
            max as int
        } else {
            most(base as int, least(max as int, div_up(overflow * floor_ns, budget_ns as int)))
        },
        ChunkPolicy::Bounded { min_chunk, max_steps } => most(
            min_chunk as int,
            div_up(overflow, max_steps as int),
        ),
    }
}

fn ceil_div(a: usize, b: usize) -> (r: usize)
    requires
        b > 0,
    ensures
        r == div_up(a as int, b as int),
        0 <= r <= a,
        a > 0 ==> r > 0,
{
    proof {
        lemma_div_up(a as int, b as int);
    }
    if a % b == 0 {
        a / b
    } else {
        a / b + 1
    }
}

/// Rounding up covers, wastes less than one part, and is never more than the dividend.
pub proof fn lemma_div_up(a: int, b: int)
    requires
        a >= 0,
        b > 0,
    ensures
        div_up(a, b) * b >= a,
        (div_up(a, b) - 1) * b < a || a == 0,
        0 <= div_up(a, b) <= a,
        a > 0 ==> div_up(a, b) > 0,
{
    lemma_fundamental_div_mod(a, b);
    lemma_mod_bound(a, b);
    let q = a / b;
    let r = a % b;
    assert(q >= 0) by (nonlinear_arith)
        requires
            a == b * q + r,
            0 <= r < b,
            a >= 0,
    ;
    assert((q + 1) * b == b * q + b) by (nonlinear_arith);
    assert((q - 1) * b == b * q - b) by (nonlinear_arith);
    assert(q * b == b * q) by (nonlinear_arith);
    assert(b * q >= q) by (nonlinear_arith)
        requires
            b > 0,
            q >= 0,
    ;
    if a > 0 && r == 0 {
        assert(q > 0) by (nonlinear_arith)
            requires
                a == b * q,
                a > 0,
                q >= 0,
        ;
    }
}

fn burst_split(lens: &Vec<usize>, cap: Option<usize>) -> (r: usize)
    ensures
        r <= lens@.len(),
        is_burst(lens@, cap, r as int),
{
    match cap {
        None => 0,
        Some(limit) => {
            let mut cum: usize = 0;
            let mut k: usize = 0;
            while k < lens.len()
                invariant
                    k <= lens@.len(),
                    cum == least(bytes_of(lens@, k as int), usize::MAX as int),
                    forall|j: int| 1 <= j <= k ==> #[trigger] bytes_of(lens@, j) < limit,
                    cap == Some(limit),
                decreases lens@.len() - k,
            {
                cum = cum.saturating_add(lens[k]);
                k = k + 1;
                assert(bytes_of(lens@, k as int) == bytes_of(lens@, k - 1) + lens@[k - 1]);
                if cum >= limit {
                    return k;
                }
            }
            k
        },
    }
}

/// Schedules a frame from its packet lengths.
pub fn schedule_lens(lens: &Vec<usize>, cfg: &PaceCfg, pace_budget_ns: u64) -> (s: PaceSchedule)
    requires
        policy_ok(cfg.chunk, lens@, cfg.burst_bytes, cfg.sleep_floor_ns, pace_budget_ns),
    ensures
        s.burst_len <= lens@.len(),
        is_burst(lens@, cfg.burst_bytes, s.burst_len as int),
        s.chunk == chunk_for(
            cfg.chunk,
            lens@.len() - s.burst_len,
            cfg.sleep_floor_ns,
            pace_budget_ns,
        ),
        s.chunk > 0,
        s.steps == most(1, div_up(lens@.len() - s.burst_len, s.chunk as int)),
{
    let burst_len: usize = burst_split(lens, cfg.burst_bytes);
    let overflow: usize = lens.len() - burst_len;
    proof {
        lemma_overflows(lens@, cfg.burst_bytes, burst_len as int);
    }
    let chunk: usize = match cfg.chunk {
        ChunkPolicy::Fixed(c) => c,
        ChunkPolicy::Adaptive { base, max } => {
            if overflow == 0 {
                base
            } else if pace_budget_ns == 0 {
                max
            } else {
                proof {
                    lemma_product_fits(overflow, cfg.sleep_floor_ns);
                    lemma_div_up(overflow * cfg.sleep_floor_ns, pace_budget_ns as int);
                    assert(cfg.sleep_floor_ns > 0 ==> overflow * cfg.sleep_floor_ns > 0)
                        by (nonlinear_arith)
                        requires
                            overflow > 0,
                    ;
                }
                let spread: u128 = overflow as u128 * cfg.sleep_floor_ns as u128;
                let budget: u128 = pace_budget_ns as u128;
                let least_chunk: u128 = if spread % budget == 0 {
                    spread / budget
                } else {
                    spread / budget + 1
                };
                if least_chunk <= base as u128 {
                    base
                } else if least_chunk >= max as u128 {
                    max
                } else {
                    least_chunk as usize
                }
            }
        },
        ChunkPolicy::Bounded { min_chunk, max_steps } => {
            let per_step: usize = ceil_div(overflow, max_steps);
            if min_chunk > per_step {
                min_chunk
            } else {
                per_step
            }
        },
    };
    let sends: usize = ceil_div(overflow, chunk);
    PaceSchedule {
        burst_len,
        chunk,
        steps: if sends > 1 {
            sends
        } else {
            1
        },
    }
}

proof fn lemma_product_fits(n: usize, floor_ns: u64)
    ensures
        0 <= n * floor_ns < u128::MAX,
{
    assert(0 <= n * floor_ns < u128::MAX) by (nonlinear_arith)
        requires
            n <= u64::MAX,
    ;
}

/// Packets are left over exactly when the burst ends before the frame does.
proof fn lemma_overflows(lens: Seq<usize>, cap: Option<usize>, r: int)
    requires
        is_burst(lens, cap, r),
    ensures
        overflows(lens, cap) <==> r < lens.len(),
{
    if let Some(c) = cap {
        if overflows(lens, cap) {
            let j = choose|j: int| 1 <= j < lens.len() && #[trigger] bytes_of(lens, j) >= c;
            assert(bytes_of(lens, j) >= c);
        }
        if r < lens.len() {
            assert(bytes_of(lens, r) >= c);
        }
    }
}

/// The lengths of packets.
pub open spec fn lens_of(packets: Seq<Vec<u8>>) -> Seq<usize> {
    packets.map_values(|p: Vec<u8>| p@.len() as usize)
}

fn measure(packets: &[Vec<u8>]) -> (lens: Vec<usize>)
    ensures
        lens@ == lens_of(packets@),
{
    let mut lens: Vec<usize> = Vec::new();
    let mut i: usize = 0;
    while i < packets.len()
        invariant
            i <= packets@.len(),
            lens@ == lens_of(packets@.take(i as int)),
        decreases packets@.len() - i,
    {
        lens.push(packets[i].len());
        i = i + 1;
        assert(lens@ =~= lens_of(packets@.take(i as int)));
    }
    assert(packets@.take(i as int) =~= packets@);
    lens
}

/// Schedules a frame. Only [`ChunkPolicy::Adaptive`] reads the budget.
pub fn schedule(packets: &[Vec<u8>], cfg: &PaceCfg, pace_budget_ns: u64) -> (s: PaceSchedule)
    requires
        policy_ok(
            cfg.chunk,
            lens_of(packets@),
            cfg.burst_bytes,
            cfg.sleep_floor_ns,
            pace_budget_ns,
        ),
    ensures
        s.burst_len <= packets@.len(),
        is_burst(lens_of(packets@), cfg.burst_bytes, s.burst_len as int),
        s.chunk == chunk_for(
            cfg.chunk,
            packets@.len() - s.burst_len,
            cfg.sleep_floor_ns,
            pace_budget_ns,
        ),
        s.chunk > 0,
        s.steps == most(1, div_up(packets@.len() - s.burst_len, s.chunk as int)),
{
    let lens: Vec<usize> = measure(packets);
    schedule_lens(&lens, cfg, pace_budget_ns)
}

/// One send of a paced frame: packets `start..end`, then a wait towards `after` parts of the
/// budget's `steps`, if any.
#[derive(Clone, Copy, Debug, PartialEq, Eq, Structural)]
pub struct PaceStep {
    pub start: usize,
    pub end: usize,
    pub after: Option<usize>,
}

/// The `i`-th group of `chunk` packets in `from..to`.
pub open spec fn group(from: int, to: int, chunk: int, i: int) -> (int, int) {
    (from + i * chunk, least(from + (i + 1) * chunk, to))
}

/// The sends of a schedule over `n` packets: the burst in groups without waits, then the overflow
/// in groups with a wait after each but the last.
pub open spec fn sends_of(s: PaceSchedule, n: int) -> Seq<PaceStep> {
    let bursts = div_up(s.burst_len as int, s.chunk as int);
    let rest = div_up(n - s.burst_len, s.chunk as int);
    Seq::new(
        bursts as nat,
        |i: int|
            PaceStep {
                start: group(0, s.burst_len as int, s.chunk as int, i).0 as usize,
                end: group(0, s.burst_len as int, s.chunk as int, i).1 as usize,
                after: None,
            },
    ) + Seq::new(
        rest as nat,
        |j: int|
            PaceStep {
                start: group(s.burst_len as int, n, s.chunk as int, j).0 as usize,
                end: group(s.burst_len as int, n, s.chunk as int, j).1 as usize,
                after: if j + 1 == s.steps {
                    None
                } else {
                    Some((j + 1) as usize)
                },
            },
    )
}

proof fn lemma_group_index(len: int, chunk: int, i: int)
    requires
        len >= 0,
        chunk > 0,
        i >= 0,
    ensures
        i * chunk >= len <==> i >= div_up(len, chunk),
        i * chunk < len ==> i < div_up(len, chunk),
        (i + 1) * chunk == i * chunk + chunk,
        i * chunk >= 0,
{
    lemma_div_up(len, chunk);
    let d = div_up(len, chunk);
    assert((i + 1) * chunk == i * chunk + chunk) by (nonlinear_arith);
    assert(i * chunk >= 0) by (nonlinear_arith)
        requires
            i >= 0,
            chunk > 0,
    ;
    if i >= d {
        assert(i * chunk >= d * chunk) by (nonlinear_arith)
            requires
                i >= d,
                chunk > 0,
        ;
    } else {
        assert(i * chunk <= (d - 1) * chunk) by (nonlinear_arith)
            requires
                i <= d - 1,
                chunk > 0,
        ;
    }
}

fn push_groups(
    out: &mut Vec<PaceStep>,
    from: usize,
    to: usize,
    chunk: usize,
    paced_steps: Option<usize>,
)
    requires
        from <= to,
        chunk > 0,
    ensures
        final(out)@ == old(out)@ + Seq::new(
            div_up(to - from, chunk as int) as nat,
            |j: int|
                PaceStep {
                    start: group(from as int, to as int, chunk as int, j).0 as usize,
                    end: group(from as int, to as int, chunk as int, j).1 as usize,
                    after: match paced_steps {
                        Some(steps) => if j + 1 == steps {
                            None
                        } else {
                            Some((j + 1) as usize)
                        },
                        None => None,
                    },
                },
        ),
{
    let ghost f = |j: int|
        PaceStep {
            start: group(from as int, to as int, chunk as int, j).0 as usize,
            end: group(from as int, to as int, chunk as int, j).1 as usize,
            after: match paced_steps {
                Some(steps) => if j + 1 == steps {
                    None
                } else {
                    Some((j + 1) as usize)
                },
                None => None,
            },
        };
    let ghost d = div_up(to - from, chunk as int);
    let ghost before = out@;
    let mut at: usize = from;
    let mut j: usize = 0;
    proof {
        lemma_div_up(to - from, chunk as int);
    }
    while at < to
        invariant
            from <= at <= to,
            chunk > 0,
            0 <= j <= d,
            d == div_up(to - from, chunk as int),
            d <= to - from,
            at == least(from + j * chunk, to as int),
            f == (|j: int|
                PaceStep {
                    start: group(from as int, to as int, chunk as int, j).0 as usize,
                    end: group(from as int, to as int, chunk as int, j).1 as usize,
                    after: match paced_steps {
                        Some(steps) => if j + 1 == steps {
                            None
                        } else {
                            Some((j + 1) as usize)
                        },
                        None => None,
                    },
                }),
            out@ == before + Seq::new(j as nat, f),
        decreases to - at,
    {
        proof {
            lemma_group_index(to - from, chunk as int, j as int);
        }
        let end: usize = if to - at > chunk {
            at + chunk
        } else {
            to
        };
        let after: Option<usize> = match paced_steps {
            Some(steps) => if j + 1 == steps {
                None
            } else {
                Some(j + 1)
            },
            None => None,
        };
        out.push(PaceStep { start: at, end, after });
        proof {
            assert(f(j as int) == (PaceStep { start: at, end, after }));
            assert(out@ =~= before + Seq::new((j + 1) as nat, f));
        }
        at = end;
        j = j + 1;
    }
    proof {
        lemma_group_index(to - from, chunk as int, j as int);
        assert(j == d);
        assert(out@ =~= before + Seq::new(d as nat, f));
    }
}

/// The sends of a whole frame: burst first, then the paced overflow. The last send has no wait
/// after it: its packets are already on the wire.
pub fn pace_frame(s: &PaceSchedule, n: usize) -> (out: Vec<PaceStep>)
    requires
        s.burst_len <= n,
        s.chunk > 0,
    ensures
        out@ == sends_of(*s, n as int),
{
    let mut out: Vec<PaceStep> = Vec::new();
    push_groups(&mut out, 0, s.burst_len, s.chunk, None);
    push_groups(&mut out, s.burst_len, n, s.chunk, Some(s.steps));
    proof {
        assert(out@ =~= sends_of(*s, n as int));
    }
    out
}

/// How long a frame may be spread, seen at `now_ns`: the share of the time left to the deadline,
/// up to the cap, or what was fixed.
pub open spec fn budget_of(b: PaceBudget, now_ns: u64) -> int {
    match b {
        PaceBudget::UntilDeadline { deadline_ns, fraction_permille, cap_ns } => least(
            most(deadline_ns - now_ns, 0) * fraction_permille / 1000,
            cap_ns as int,
        ),
        PaceBudget::Fixed(ns) => ns as int,
    }
}

/// How long a frame may be spread, seen at `now_ns`.
pub fn budget_at(b: &PaceBudget, now_ns: u64) -> (ns: u64)
    ensures
        ns == budget_of(*b, now_ns),
{
    match *b {
        PaceBudget::UntilDeadline { deadline_ns, fraction_permille, cap_ns } => {
            let slack: u64 = if deadline_ns > now_ns {
                deadline_ns - now_ns
            } else {
                0
            };
            proof {
                lemma_share_fits(slack, fraction_permille);
            }
            let share: u128 = slack as u128 * fraction_permille as u128 / 1000;
            if share < cap_ns as u128 {
                share as u64
            } else {
                cap_ns
            }
        },
        PaceBudget::Fixed(ns) => ns,
    }
}

proof fn lemma_share_fits(slack: u64, permille: u32)
    ensures
        0 <= slack * permille <= u128::MAX,
{
    assert(0 <= slack * permille <= u128::MAX) by (nonlinear_arith);
}

/// The time the send after `done` of `steps` paced sends waits for: that share of the budget.
pub open spec fn target_of(start_ns: u64, budget_ns: u64, done: int, steps: int) -> int {
    start_ns + budget_ns * done / steps
}

/// The time the send after `done` of `steps` paced sends waits for.
pub fn pace_target(start_ns: u64, budget_ns: u64, done: usize, steps: usize) -> (ns: u64)
    requires
        0 < steps,
        done <= steps,
        start_ns + budget_ns <= u64::MAX,
    ensures
        ns == target_of(start_ns, budget_ns, done as int, steps as int),
{
    proof {
        lemma_target(start_ns, budget_ns, done as int, steps as int);
        lemma_product_fits(done, budget_ns);
        assert(budget_ns * done == done * budget_ns) by (nonlinear_arith);
    }
    let share: u128 = budget_ns as u128 * done as u128 / steps as u128;
    start_ns + share as u64
}

proof fn lemma_target(start_ns: u64, budget_ns: u64, done: int, steps: int)
    requires
        0 <= done <= steps,
        0 < steps,
    ensures
        start_ns <= target_of(start_ns, budget_ns, done, steps) <= start_ns + budget_ns,
{
    let q = budget_ns * done / steps;
    lemma_fundamental_div_mod(budget_ns * done, steps);
    lemma_mod_bound(budget_ns * done, steps);
    assert(0 <= q <= budget_ns) by (nonlinear_arith)
        requires
            budget_ns * done == steps * q + (budget_ns * done) % steps,
            0 <= (budget_ns * done) % steps < steps,
            0 <= done <= steps,
            0 < steps,
            budget_ns >= 0,
    ;
}

/// The wait between two sends: until `target_ns`, unless that has passed or is closer than the
/// floor.
pub open spec fn sleep_of(target_ns: int, now_ns: u64, floor_ns: u64) -> Option<u64> {
    if target_ns >= now_ns && target_ns - now_ns >= floor_ns {
        Some((target_ns - now_ns) as u64)
    } else {
        None
    }
}

/// The wait between two sends.
pub fn pace_sleep(target_ns: u64, now_ns: u64, floor_ns: u64) -> (ns: Option<u64>)
    ensures
        ns == sleep_of(target_ns as int, now_ns, floor_ns),
{
    if target_ns < now_ns {
        return None;
    }
    let ahead: u64 = target_ns - now_ns;
    if ahead >= floor_ns {
        Some(ahead)
    } else {
        None
    }
}

/// A frame on its way out: take a send from [`PaceRun::next`], make it, wait as
/// [`PaceRun::wait`] says, until no send is left. One that fails is told to [`PaceRun::failed`],
/// and ends the frame.
pub struct PaceRun {
    pub sched: PaceSchedule,
    /// Packets of the frame.
    pub packets: usize,
    pub sends: Vec<PaceStep>,
    /// Sends taken.
    pub at: usize,
    pub budget: PaceBudget,
    pub floor_ns: u64,
    pub start_ns: u64,
    /// When the first send past the burst was taken.
    pub pace_start_ns: u64,
    /// The budget, seen at that time.
    pub spread_ns: u64,
    /// A send failed: nothing of the frame is sent any more.
    pub broken: bool,
}

impl PaceRun {
    pub open spec fn wf(self) -> bool {
        &&& self.sched.burst_len <= self.packets
        &&& self.sched.chunk > 0
        &&& self.sched.steps == most(
            1,
            div_up(self.packets - self.sched.burst_len, self.sched.chunk as int),
        )
        &&& self.sends@ == sends_of(self.sched, self.packets as int)
        &&& self.at <= self.sends@.len()
        &&& self.pace_start_ns + self.spread_ns <= u64::MAX
    }

    /// The next send is the first past the burst: the pacing starts with it.
    pub open spec fn starts_pacing(self) -> bool {
        self.sending() && self.sends@[self.at as int].start == self.sched.burst_len
    }

    /// A send is left to take.
    pub open spec fn sending(self) -> bool {
        !self.broken && self.at < self.sends@.len()
    }

    /// What a call makes of a run: a send is taken, or found missing, or has failed.
    pub open spec fn leads_to(self, next: PaceRun) -> bool {
        ||| next == (PaceRun { broken: true, ..self })
        ||| next == self
        ||| exists|pace_start_ns: u64, spread_ns: u64|
            self.sending() && next == #[trigger] self.taken(pace_start_ns, spread_ns)
    }

    /// The run with its next send taken.
    pub open spec fn taken(self, pace_start_ns: u64, spread_ns: u64) -> PaceRun {
        PaceRun { at: (self.at + 1) as usize, pace_start_ns, spread_ns, ..self }
    }

    /// Begins a frame. An adaptive chunk is cut for the budget seen now, before the burst leaves.
    pub fn begin(
        packets: &[Vec<u8>],
        budget: PaceBudget,
        cfg: &PaceCfg,
        now_ns: u64,
    ) -> (r: PaceRun)
        requires
            policy_ok(
                cfg.chunk,
                lens_of(packets@),
                cfg.burst_bytes,
                cfg.sleep_floor_ns,
                budget_of(budget, now_ns) as u64,
            ),
        ensures
            r.wf(),
            r.packets == packets@.len(),
            is_burst(lens_of(packets@), cfg.burst_bytes, r.sched.burst_len as int),
            r.sched.chunk == chunk_for(
                cfg.chunk,
                packets@.len() - r.sched.burst_len,
                cfg.sleep_floor_ns,
                budget_of(budget, now_ns) as u64,
            ),
            r.at == 0,
            r.budget == budget,
            r.floor_ns == cfg.sleep_floor_ns,
            r.start_ns == now_ns,
            r.pace_start_ns == now_ns,
            r.spread_ns == 0,
            !r.broken,
    {
        let sched: PaceSchedule = schedule(packets, cfg, budget_at(&budget, now_ns));
        let sends: Vec<PaceStep> = pace_frame(&sched, packets.len());
        PaceRun {
            sched,
            packets: packets.len(),
            sends,
            at: 0,
            budget,
            floor_ns: cfg.sleep_floor_ns,
            start_ns: now_ns,
            pace_start_ns: now_ns,
            spread_ns: 0,
            broken: false,
        }
    }

    /// Takes the next send; none when the frame is out or a send has failed. The budget is looked
    /// at once more when the burst has left.
    pub fn next(&mut self, now_ns: u64) -> (step: Option<PaceStep>)
        requires
            old(self).wf(),
            old(self).starts_pacing() ==> now_ns + budget_of(old(self).budget, now_ns) <= u64::MAX,
        ensures
            final(self).wf(),
            step == if old(self).sending() {
                Some(old(self).sends@[old(self).at as int])
            } else {
                None
            },
            *final(self) == (PaceRun {
                at: if old(self).sending() {
                    (old(self).at + 1) as usize
                } else {
                    old(self).at
                },
                pace_start_ns: if old(self).starts_pacing() {
                    now_ns
                } else {
                    old(self).pace_start_ns
                },
                spread_ns: if old(self).starts_pacing() {
                    budget_of(old(self).budget, now_ns) as u64
                } else {
                    old(self).spread_ns
                },
                ..*old(self)
            }),
            old(self).leads_to(*final(self)),
    {
        if self.broken || self.at >= self.sends.len() {
            return None;
        }
        let step: PaceStep = self.sends[self.at];
        if step.start == self.sched.burst_len {
            self.pace_start_ns = now_ns;
            self.spread_ns = budget_at(&self.budget, now_ns);
        }
        self.at = self.at + 1;
        assert(*self == old(self).taken(self.pace_start_ns, self.spread_ns));
        Some(step)
    }

    /// The send just taken failed: it was the frame's last.
    pub fn failed(&mut self)
        ensures
            *final(self) == (PaceRun { broken: true, ..*old(self) }),
            !final(self).sending(),
            old(self).wf() ==> final(self).wf(),
            old(self).leads_to(*final(self)),
    {
        self.broken = true;
    }

    /// How long to wait after the send just made; none after a burst's, the last or one that
    /// failed.
    pub fn wait(&self, now_ns: u64) -> (ns: Option<u64>)
        requires
            self.wf(),
        ensures
            ns == if self.at == 0 || self.broken {
                None
            } else {
                match self.sends@[self.at - 1].after {
                    Some(done) => sleep_of(
                        target_of(
                            self.pace_start_ns,
                            self.spread_ns,
                            done as int,
                            self.sched.steps as int,
                        ),
                        now_ns,
                        self.floor_ns,
                    ),
                    None => None,
                }
            },
    {
        if self.at == 0 || self.broken {
            return None;
        }
        match self.sends[self.at - 1].after {
            Some(done) => {
                proof {
                    let b = self.sched.burst_len as int;
                    let c = self.sched.chunk as int;
                    lemma_div_up(b, c);
                    lemma_div_up(self.packets - b, c);
                    assert(self.at - 1 - div_up(b, c) < div_up(self.packets - b, c));
                }
                let target: u64 = pace_target(
                    self.pace_start_ns,
                    self.spread_ns,
                    done,
                    self.sched.steps,
                );
                pace_sleep(target, now_ns, self.floor_ns)
            },
            None => None,
        }
    }

    /// What the send took, in microseconds of 32 bits, and whether anything was paced.
    pub fn stat(&self, now_ns: u64) -> (st: PaceStat)
        requires
            self.start_ns <= now_ns,
        ensures
            st.spread_us == ((now_ns - self.start_ns) / 1_000) % 0x1_0000_0000,
            st.paced == (self.sched.burst_len < self.packets),
    {
        let us: u64 = ((now_ns - self.start_ns) / 1_000) % 0x1_0000_0000;
        PaceStat { spread_us: us as u32, paced: self.sched.burst_len < self.packets }
    }
}

/// A failed send is the last of its frame: whatever comes after it, no send is taken again.
pub proof fn nothing_follows_a_failed_send(trace: Seq<PaceRun>, failed: int, later: int)
    requires
        0 <= failed <= later < trace.len(),
        trace[failed].broken,
        forall|i: int| 0 <= i < trace.len() - 1 ==> #[trigger] trace[i].leads_to(trace[i + 1]),
    ensures
        trace[later].broken,
        !trace[later].sending(),
        trace[later].at == trace[failed].at,
    decreases later - failed,
{
    if failed < later {
        let i = later - 1;
        assert(trace[i].leads_to(trace[i + 1]));
        nothing_follows_a_failed_send(trace, failed, later - 1);
    }
}

/// A frame counts as paced exactly when a send follows its burst.
pub proof fn paced_means_a_send_past_the_burst(s: PaceSchedule, n: int)
    requires
        0 <= s.burst_len <= n <= usize::MAX,
        s.chunk > 0,
    ensures
        s.burst_len < n <==> exists|i: int|
            0 <= i < sends_of(s, n).len() && (#[trigger] sends_of(s, n)[i]).start >= s.burst_len,
{
    let q = sends_of(s, n);
    let b = s.burst_len as int;
    let c = s.chunk as int;
    let nb = div_up(b, c);
    sends_cover_the_frame(s, n);
    lemma_div_up(b, c);
    lemma_div_up(n - b, c);
    assert(q.len() == nb + div_up(n - b, c));
    if b < n {
        lemma_group_index(n - b, c, 0);
        assert(q[nb].start == b);
    } else if exists|i: int| 0 <= i < q.len() && (#[trigger] q[i]).start >= s.burst_len {
        let i = choose|i: int| 0 <= i < q.len() && (#[trigger] q[i]).start >= s.burst_len;
        assert(q[i].start < q[i].end <= n);
    }
}

/// Every packet leaves exactly once and in order: each send starts where the one before ended,
/// the first at packet 0, the last at packet `n`. None is empty, larger than a chunk, or made of
/// packets of the burst and of the overflow.
pub proof fn sends_cover_the_frame(s: PaceSchedule, n: int)
    requires
        0 <= s.burst_len <= n <= usize::MAX,
        s.chunk > 0,
    ensures
        n == 0 ==> sends_of(s, n).len() == 0,
        n > 0 ==> sends_of(s, n).len() > 0 && sends_of(s, n)[0].start == 0 && sends_of(
            s,
            n,
        ).last().end == n,
        forall|i: int|
            0 <= i < sends_of(s, n).len() - 1 ==> (#[trigger] sends_of(s, n)[i]).end == sends_of(
                s,
                n,
            )[i + 1].start,
        forall|i: int|
            0 <= i < sends_of(s, n).len() ==> (#[trigger] sends_of(s, n)[i]).start < sends_of(
                s,
                n,
            )[i].end <= n && sends_of(s, n)[i].end - sends_of(s, n)[i].start <= s.chunk,
        forall|i: int|
            0 <= i < sends_of(s, n).len() ==> (#[trigger] sends_of(s, n)[i]).end <= s.burst_len
                || sends_of(s, n)[i].start >= s.burst_len,
{
    let b = s.burst_len as int;
    let c = s.chunk as int;
    let nb = div_up(b, c);
    let nr = div_up(n - b, c);
    lemma_div_up(b, c);
    lemma_div_up(n - b, c);
    let q = sends_of(s, n);
    assert(q.len() == nb + nr);
    assert forall|i: int| 0 <= i < q.len() implies (#[trigger] q[i]).start < q[i].end <= n && q[i].end
        - q[i].start <= s.chunk && q[i].start == if i < nb {
        i * c
    } else {
        b + (i - nb) * c
    } && q[i].end == if i < nb {
        least((i + 1) * c, b)
    } else {
        least(b + (i - nb + 1) * c, n)
    } by {
        if i < nb {
            lemma_group_index(b, c, i);
        } else {
            lemma_group_index(n - b, c, i - nb);
        }
    }
    assert forall|i: int| 0 <= i < q.len() - 1 implies (#[trigger] q[i]).end == q[i + 1].start by {
        let here = q[i];
        let next = q[i + 1];
        if i + 1 < nb {
            lemma_group_index(b, c, i + 1);
        } else if i + 1 == nb {
            lemma_group_index(b, c, i + 1);
            assert((i + 1 - nb) * c == 0) by (nonlinear_arith)
                requires
                    i + 1 == nb,
            ;
        } else {
            let k = i + 1 - nb;
            lemma_group_index(n - b, c, k);
            assert(i - nb + 1 == k);
            assert(here.end == least(b + k * c, n));
            assert(next.start == b + k * c);
        }
    }
    if n > 0 {
        let first = q[0];
        let last = q[q.len() - 1];
        if nr > 0 {
            lemma_group_index(n - b, c, nr);
            lemma_group_index(n - b, c, nr - 1);
        } else {
            lemma_group_index(b, c, nb);
            lemma_group_index(b, c, nb - 1);
        }
        lemma_group_index(b, c, 0);
        lemma_group_index(n - b, c, 0);
    }
}

/// The paced sends of a frame wait for ever later times, none before the pacing starts and none
/// past its budget.
pub proof fn waits_stay_within_the_budget(
    start_ns: u64,
    budget_ns: u64,
    fewer: int,
    more: int,
    steps: int,
)
    requires
        0 <= fewer <= more <= steps,
        0 < steps,
    ensures
        start_ns <= target_of(start_ns, budget_ns, fewer, steps) <= target_of(
            start_ns,
            budget_ns,
            more,
            steps,
        ) <= start_ns + budget_ns,
{
    lemma_target(start_ns, budget_ns, fewer, steps);
    lemma_target(start_ns, budget_ns, more, steps);
    assert(budget_ns * fewer <= budget_ns * more) by (nonlinear_arith)
        requires
            fewer <= more,
            budget_ns >= 0,
    ;
    vstd::arithmetic::div_mod::lemma_div_is_ordered(budget_ns * fewer, budget_ns * more, steps);
}

/// With an adaptive chunk below its ceiling, no wait is cut below the floor: a step's share of
/// the budget is at least the floor whenever the chunk was not held at `max`.
pub proof fn adaptive_waits_reach_the_floor(
    overflow: int,
    floor_ns: u64,
    budget_ns: u64,
    base: usize,
    max: usize,
)
    requires
        overflow > 0,
        budget_ns > 0,
        0 < base <= max,
        chunk_for(ChunkPolicy::Adaptive { base, max }, overflow, floor_ns, budget_ns) < max,
    ensures
        chunk_for(ChunkPolicy::Adaptive { base, max }, overflow, floor_ns, budget_ns) * budget_ns
            >= overflow * floor_ns,
{
    let c = chunk_for(ChunkPolicy::Adaptive { base, max }, overflow, floor_ns, budget_ns);
    assert(overflow * floor_ns >= 0) by (nonlinear_arith)
        requires
            overflow > 0,
    ;
    lemma_div_up(overflow * floor_ns, budget_ns as int);
    let d = div_up(overflow * floor_ns, budget_ns as int);
    assert(c * budget_ns >= d * budget_ns) by (nonlinear_arith)
        requires
            c >= d,
            budget_ns > 0,
    ;
}

/// A bounded schedule never takes more than `max_steps` sends for its overflow.
pub proof fn bounded_schedules_stay_bounded(overflow: int, min_chunk: usize, max_steps: usize)
    requires
        overflow > 0,
        max_steps > 0,
    ensures
        ({
            let c = chunk_for(ChunkPolicy::Bounded { min_chunk, max_steps }, overflow, 0, 0);
            &&& c > 0
            &&& div_up(overflow, c) <= max_steps
            &&& c >= min_chunk
        }),
{
    let c = chunk_for(ChunkPolicy::Bounded { min_chunk, max_steps }, overflow, 0, 0);
    lemma_div_up(overflow, max_steps as int);
    lemma_div_up(overflow, c);
    let d = div_up(overflow, c);
    if d > max_steps {
        assert((d - 1) * c >= max_steps * div_up(overflow, max_steps as int)) by (nonlinear_arith)
            requires
                d - 1 >= max_steps,
                c >= div_up(overflow, max_steps as int),
                c > 0,
                max_steps > 0,
                div_up(overflow, max_steps as int) >= 0,
        ;
        assert(div_up(overflow, max_steps as int) * max_steps == max_steps * div_up(
            overflow,
            max_steps as int,
        )) by (nonlinear_arith);
    }
}

/// The share of packets a test run discards: the setting's value when it is a number from 1 to
/// 90, else none.
pub open spec fn drop_share(setting: Option<Seq<char>>) -> u32 {
    match setting {
        Some(s) => match text::parsed(s, u32::MAX as nat) {
            Some(n) if 1 <= n <= 90 => n as u32,
            _ => 0,
        },
        None => 0,
    }
}

/// Reads the discard setting.
pub fn video_drop_pct(setting: Option<&str>) -> (pct: u32)
    ensures
        pct == drop_share(
            match setting {
                Some(s) => Some(s@),
                None => None,
            },
        ),
{
    match setting {
        Some(s) => match text::parse_u32(s) {
            Some(n) => if 1 <= n && n <= 90 {
                n
            } else {
                0
            },
            None => 0,
        },
        None => 0,
    }
}

/// `rand::Rng::random_range` on the thread's generator draws a number below `below`. Nothing more
/// is claimed of a draw.
#[verifier::external_body]
fn draw_below(below: u32) -> (r: u32)
    requires
        below > 0,
    ensures
        r < below,
{
    rand::rng().random_range(0..below)
}

/// The items whose draw is at least `pct`, in order.
pub open spec fn kept<T>(items: Seq<T>, draws: Seq<u32>, pct: u32) -> Seq<T>
    decreases items.len(),
{
    if items.len() == 0 {
        Seq::empty()
    } else {
        let rest = kept(items.drop_last(), draws, pct);
        if draws[items.len() - 1] >= pct {
            rest.push(items.last())
        } else {
            rest
        }
    }
}

/// Discards each packet whose draw is below `pct` and says how many went.
pub fn drop_drawn<T>(packets: &mut Vec<T>, pct: u32, draws: &Vec<u32>) -> (dropped: u64)
    requires
        old(packets)@.len() <= draws@.len(),
    ensures
        final(packets)@ == kept(old(packets)@, draws@, pct),
        dropped == old(packets)@.len() - final(packets)@.len(),
{
    let ghost all = packets@;
    let mut rest: Vec<T> = Vec::new();
    let mut gone: u64 = 0;
    let mut left: usize = packets.len();
    let total: usize = left;
    proof {
        assert(all.take(total as int) =~= all);
        assert(kept(all, draws@, pct) + rest@.reverse() =~= kept(all, draws@, pct));
    }
    while left > 0
        invariant
            left <= total,
            total == all.len(),
            total <= draws@.len(),
            packets@ == all.take(left as int),
            kept(all, draws@, pct) == kept(all.take(left as int), draws@, pct) + rest@.reverse(),
            gone + rest@.len() == total - left,
        decreases left,
    {
        let ghost now = all.take(left as int);
        let ghost before = rest@;
        let item: Option<T> = packets.pop();
        proof {
            assert(now.drop_last() =~= all.take(left - 1));
        }
        left = left - 1;
        match item {
            Some(x) => {
                if draws[left] >= pct {
                    rest.push(x);
                    proof {
                        assert(rest@.reverse() =~= seq![x] + before.reverse());
                        assert(kept(now, draws@, pct) + before.reverse() =~= kept(
                            all.take(left as int),
                            draws@,
                            pct,
                        ) + rest@.reverse());
                    }
                } else {
                    gone = gone + 1;
                }
            },
            None => {},
        }
    }
    proof {
        assert(all.take(0) =~= Seq::<T>::empty());
        assert(kept(all, draws@, pct) =~= rest@.reverse());
    }
    let ghost back = rest@;
    let mut k: usize = rest.len();
    while k > 0
        invariant
            k <= back.len(),
            rest@ == back.take(k as int),
            packets@ + rest@.reverse() == back.reverse(),
        decreases k,
    {
        let ghost held = packets@;
        let ghost was = rest@;
        let item: Option<T> = rest.pop();
        k = k - 1;
        match item {
            Some(x) => {
                packets.push(x);
                proof {
                    assert(was.reverse() =~= seq![x] + rest@.reverse());
                    assert(packets@ + rest@.reverse() =~= held + was.reverse());
                }
            },
            None => {},
        }
    }
    proof {
        assert(packets@ =~= back.reverse());
    }
    gone
}

/// Discards packets at random: each stays when its own draw below 100 is at least `pct`. With
/// `pct` zero nothing goes and nothing is drawn.
pub fn inject_video_drop<T>(packets: &mut Vec<T>, pct: u32) -> (dropped: u64)
    ensures
        dropped == old(packets)@.len() - final(packets)@.len(),
        pct == 0 ==> final(packets)@ == old(packets)@,
        pct >= 100 ==> final(packets)@.len() == 0,
        exists|draws: Seq<u32>|
            #![trigger kept(old(packets)@, draws, pct)]
            draws.len() == old(packets)@.len() && (forall|i: int|
                0 <= i < draws.len() ==> draws[i] < 100) && final(packets)@ == kept(
                old(packets)@,
                draws,
                pct,
            ),
{
    let ghost all = packets@;
    if pct == 0 {
        proof {
            let draws = Seq::new(all.len(), |i: int| 0u32);
            lemma_none_dropped(all, draws);
            assert(kept(all, draws, pct) == all);
        }
        return 0;
    }
    let n: usize = packets.len();
    let mut draws: Vec<u32> = Vec::new();
    while draws.len() < n
        invariant
            draws@.len() <= n,
            n == all.len(),
            forall|i: int| 0 <= i < draws@.len() ==> draws@[i] < 100,
        decreases n - draws@.len(),
    {
        let r: u32 = draw_below(100);
        draws.push(r);
    }
    let dropped: u64 = drop_drawn(packets, pct, &draws);
    proof {
        if pct >= 100 {
            lemma_all_dropped(all, draws@, pct);
        }
        assert(packets@ == kept(all, draws@, pct));
    }
    dropped
}

proof fn lemma_none_dropped<T>(items: Seq<T>, draws: Seq<u32>)
    ensures
        kept(items, draws, 0) == items,
    decreases items.len(),
{
    if items.len() > 0 {
        lemma_none_dropped(items.drop_last(), draws);
        assert(items.drop_last().push(items.last()) =~= items);
    }
}

proof fn lemma_all_dropped<T>(items: Seq<T>, draws: Seq<u32>, pct: u32)
    requires
        items.len() <= draws.len(),
        forall|i: int| 0 <= i < items.len() ==> draws[i] < pct,
    ensures
        kept(items, draws, pct).len() == 0,
    decreases items.len(),
{
    if items.len() > 0 {
        lemma_all_dropped(items.drop_last(), draws, pct);
    }
}

/// Credit is counted in billionths of a frame.
pub const CREDIT_FRAME: i64 = 1_000_000_000;

/// A frame and a quarter: no more than this follows a stall back to back.
pub const CREDIT_CAP: i64 = 1_250_000_000;

/// Credit after a wait: a frame's worth for each interval, up to the cap.
pub open spec fn banked(credit: int, elapsed_ns: int, interval_ns: int) -> int {
    if interval_ns > 0 {
        least(credit + elapsed_ns * CREDIT_FRAME / interval_ns, CREDIT_CAP as int)
    } else {
        credit
    }
}

/// Credit after a grab.
pub open spec fn charged(credit: int) -> int {
    most(credit - CREDIT_FRAME, i64::MIN as int)
}

/// How long until a full frame is banked: the missing share of an interval, rounded up.
pub open spec fn credit_wait(credit: int, interval_ns: int) -> int {
    if credit >= CREDIT_FRAME {
        0
    } else {
        (interval_ns * (CREDIT_FRAME - credit) + (CREDIT_FRAME - 1)) / (CREDIT_FRAME as int)
    }
}

/// Wire-rate credit for arrival-wait capture, shared by both planes.
///
/// A floor below the interval alone would let a source that always has a frame pending run above
/// the negotiated rate. A grab may run early only against what is banked, so jitter passes while
/// the average cannot exceed the rate.
#[derive(Clone, Copy, Debug, PartialEq, Eq, Structural)]
pub struct CaptureCredit {
    /// What is banked. Below nothing when a grab spent what was only partly there: it is repaid
    /// before the next one.
    pub credit: i64,
    pub last_ns: u64,
}

impl CaptureCredit {
    pub open spec fn wf(self) -> bool {
        self.credit <= CREDIT_CAP
    }

    /// A full bank.
    pub fn new(now_ns: u64) -> (b: CaptureCredit)
        ensures
            b.wf(),
            b == (CaptureCredit { credit: CREDIT_CAP, last_ns: now_ns }),
    {
        CaptureCredit { credit: CREDIT_CAP, last_ns: now_ns }
    }

    /// When the next grab may run: now once a full frame is banked, else the missing share of an
    /// interval later. A clock that went back banks nothing.
    pub fn earliest(&mut self, now_ns: u64, interval_ns: u64) -> (at: u64)
        requires
            old(self).wf(),
        ensures
            final(self).wf(),
            final(self).last_ns == now_ns,
            final(self).credit == banked(
                old(self).credit as int,
                most(now_ns - old(self).last_ns, 0),
                interval_ns as int,
            ),
            at == least(
                now_ns + credit_wait(final(self).credit as int, interval_ns as int),
                u64::MAX as int,
            ),
            at >= now_ns,
    {
        let elapsed: u64 = now_ns.saturating_sub(self.last_ns);
        if interval_ns > 0 {
            assert(0 <= elapsed * 1_000_000_000 <= 0x4000_0000_0000_0000_0000_0000);
            let accrued: u128 = elapsed as u128 * 1_000_000_000 / interval_ns as u128;
            proof {
                let e = elapsed * 1_000_000_000;
                let i = interval_ns as int;
                assert(0 <= e / i <= e) by (nonlinear_arith)
                    requires
                        e >= 0,
                        i >= 1,
                ;
            }
            let sum: i128 = self.credit as i128 + accrued as i128;
            self.credit = if sum < CREDIT_CAP as i128 {
                sum as i64
            } else {
                CREDIT_CAP
            };
        }
        self.last_ns = now_ns;
        if self.credit >= CREDIT_FRAME {
            return now_ns;
        }
        let missing: u128 = (CREDIT_FRAME as i128 - self.credit as i128) as u128;
        assert(0 <= interval_ns * missing <= 0xffff_ffff_ffff_ffff * 0x8000_0000_4000_0000)
            by (nonlinear_arith)
            requires
                0 <= interval_ns <= 0xffff_ffff_ffff_ffff,
                0 <= missing <= 0x8000_0000_4000_0000,
        ;
        let wait: u128 = (interval_ns as u128 * missing + 999_999_999) / 1_000_000_000;
        let at: u128 = now_ns as u128 + wait;
        if at < u64::MAX as u128 {
            at as u64
        } else {
            u64::MAX
        }
    }

    /// Spends one frame.
    pub fn charge(&mut self)
        requires
            old(self).wf(),
        ensures
            final(self).wf(),
            final(self).last_ns == old(self).last_ns,
            final(self).credit == charged(old(self).credit as int),
    {
        self.credit = if self.credit >= i64::MIN + CREDIT_FRAME {
            self.credit - CREDIT_FRAME
        } else {
            i64::MIN
        };
    }
}

/// What is banked at look `k` of a source that looks at the times `looks` and grabs after each,
/// with `first` banked at the first look.
pub open spec fn credit_at(first: int, looks: Seq<int>, interval_ns: int, k: int) -> int
    decreases k,
{
    if k <= 0 {
        first
    } else {
        banked(
            charged(credit_at(first, looks, interval_ns, k - 1)),
            looks[k] - looks[k - 1],
            interval_ns,
        )
    }
}

/// A source waits as it is told: each grab comes no sooner than it may, and the next look no
/// sooner than the grab.
pub open spec fn patient(first: int, looks: Seq<int>, grabs: Seq<int>, interval_ns: int) -> bool {
    &&& interval_ns > 0
    &&& 0 <= first <= CREDIT_CAP
    &&& looks.len() == grabs.len()
    &&& forall|k: int|
        0 <= k < looks.len() ==> #[trigger] grabs[k] >= looks[k] + credit_wait(
            credit_at(first, looks, interval_ns, k),
            interval_ns,
        )
    &&& forall|k: int| 0 < k < looks.len() ==> #[trigger] looks[k] >= grabs[k - 1]
}

/// What a source that waits as it is told has banked stays from nothing to the cap at each look, so
/// a grab never owes more than a frame.
pub proof fn credit_stays_in_bounds(
    first: int,
    looks: Seq<int>,
    grabs: Seq<int>,
    interval_ns: int,
    k: int,
)
    requires
        patient(first, looks, grabs, interval_ns),
        0 <= k < looks.len(),
    ensures
        0 <= credit_at(first, looks, interval_ns, k) <= CREDIT_CAP,
    decreases k,
{
    if k > 0 {
        credit_stays_in_bounds(first, looks, grabs, interval_ns, k - 1);
        let c = credit_at(first, looks, interval_ns, k - 1);
        let gap = looks[k] - looks[k - 1];
        let frame = CREDIT_FRAME as int;
        assert(looks[k] >= grabs[k - 1]);
        assert(grabs[k - 1] >= looks[k - 1] + credit_wait(c, interval_ns));
        if c < frame {
            let owed = interval_ns * (frame - c);
            assert((owed + (frame - 1)) / frame * frame >= owed) by {
                lemma_fundamental_div_mod(owed + (frame - 1), frame);
                lemma_mod_bound(owed + (frame - 1), frame);
            }
            assert(gap * frame / interval_ns >= frame - c) by (nonlinear_arith)
                requires
                    gap * frame >= interval_ns * (frame - c),
                    interval_ns > 0,
            ;
        } else {
            assert(gap >= 0);
            assert(gap * frame / interval_ns >= 0) by (nonlinear_arith)
                requires
                    gap >= 0,
                    frame == 1_000_000_000,
                    interval_ns > 0,
            ;
        }
    }
}

proof fn lemma_credit_spent(
    first: int,
    looks: Seq<int>,
    grabs: Seq<int>,
    interval_ns: int,
    k: int,
)
    requires
        patient(first, looks, grabs, interval_ns),
        0 <= k < looks.len(),
    ensures
        credit_at(first, looks, interval_ns, k) * interval_ns <= (first - k * CREDIT_FRAME)
            * interval_ns + (looks[k] - looks[0]) * CREDIT_FRAME,
    decreases k,
{
    let frame = CREDIT_FRAME as int;
    if k > 0 {
        lemma_credit_spent(first, looks, grabs, interval_ns, k - 1);
        credit_stays_in_bounds(first, looks, grabs, interval_ns, k - 1);
        let c = credit_at(first, looks, interval_ns, k - 1);
        let gap = looks[k] - looks[k - 1];
        let q = gap * frame / interval_ns;
        assert(q * interval_ns <= gap * frame) by {
            lemma_fundamental_div_mod(gap * frame, interval_ns);
            lemma_mod_bound(gap * frame, interval_ns);
            assert(interval_ns * q == q * interval_ns) by (nonlinear_arith);
        }
        let now = credit_at(first, looks, interval_ns, k);
        assert(now <= c - frame + q);
        assert(now * interval_ns <= (c - frame + q) * interval_ns) by (nonlinear_arith)
            requires
                now <= c - frame + q,
                interval_ns > 0,
        ;
        assert((c - frame + q) * interval_ns == c * interval_ns - frame * interval_ns + q
            * interval_ns) by (nonlinear_arith);
        assert((first - (k - 1) * frame) * interval_ns - frame * interval_ns == (first - k * frame)
            * interval_ns) by (nonlinear_arith);
    } else {
        assert((first - 0 * frame) * interval_ns == first * interval_ns) by (nonlinear_arith);
    }
}

/// The average cannot exceed the rate: `n` grabs of a source that waits as it is told take at
/// least `n` intervals less what was banked at the first look.
pub proof fn no_faster_than_the_rate(
    first: int,
    looks: Seq<int>,
    grabs: Seq<int>,
    interval_ns: int,
)
    requires
        patient(first, looks, grabs, interval_ns),
        looks.len() > 0,
    ensures
        (grabs.last() - looks[0]) * CREDIT_FRAME >= (looks.len() * CREDIT_FRAME - first)
            * interval_ns,
{
    let frame = CREDIT_FRAME as int;
    let n = looks.len() as int;
    let k = n - 1;
    let c = credit_at(first, looks, interval_ns, k);
    let (l, g) = (looks[k], grabs[k]);
    lemma_credit_spent(first, looks, grabs, interval_ns, k);
    assert(g >= l + credit_wait(c, interval_ns));
    if c < frame {
        let owed = interval_ns * (frame - c);
        assert((owed + (frame - 1)) / frame * frame >= owed) by {
            lemma_fundamental_div_mod(owed + (frame - 1), frame);
            lemma_mod_bound(owed + (frame - 1), frame);
        }
        assert((g - l) * frame >= interval_ns * (frame - c));
    } else {
        assert((g - l) * frame >= interval_ns * (frame - c)) by (nonlinear_arith)
            requires
                g >= l,
                c >= frame,
                frame == 1_000_000_000,
                interval_ns > 0,
        ;
    }
    assert(interval_ns * (frame - c) == frame * interval_ns - c * interval_ns) by (nonlinear_arith);
    assert((first - k * frame) * interval_ns == first * interval_ns - n * frame * interval_ns
        + frame * interval_ns) by (nonlinear_arith)
        requires
            k == n - 1,
    ;
    assert((n * frame - first) * interval_ns == n * frame * interval_ns - first * interval_ns)
        by (nonlinear_arith);
}

/// A source at or below the rate is never held back: with a full frame banked at one look, it is
/// banked again an interval later.
pub proof fn an_on_rate_source_is_never_held(credit: int, elapsed_ns: int, interval_ns: int)
    requires
        CREDIT_FRAME <= credit <= CREDIT_CAP,
        0 < interval_ns <= elapsed_ns,
    ensures
        banked(charged(credit), elapsed_ns, interval_ns) >= CREDIT_FRAME,
        credit_wait(banked(charged(credit), elapsed_ns, interval_ns), interval_ns) == 0,
{
    let frame = CREDIT_FRAME as int;
    assert(elapsed_ns * frame / interval_ns >= frame) by (nonlinear_arith)
        requires
            frame == 1_000_000_000,
            0 < interval_ns <= elapsed_ns,
    ;
}

/// In ascending order.
pub open spec fn ascending(s: Seq<u32>) -> bool {
    forall|i: int, j: int| 0 <= i <= j < s.len() ==> s[i] <= s[j]
}

/// `sort_unstable` puts the numbers in ascending order and keeps each as often as it was there.
#[verifier::external_body]
fn sort_ascending(v: &mut Vec<u32>)
    ensures
        ascending(final(v)@),
        final(v)@.to_multiset() == old(v)@.to_multiset(),
{
    v.sort_unstable()
}

/// The number at `rank` in ascending order, or the largest past the end; 0 of nothing. Sorts in
/// place.
pub fn percentile_at(v: &mut Vec<u32>, rank: usize) -> (r: u32)
    ensures
        ascending(final(v)@),
        final(v)@.to_multiset() == old(v)@.to_multiset(),
        old(v)@.len() == 0 ==> r == 0,
        old(v)@.len() > 0 ==> r == final(v)@[least(rank as int, old(v)@.len() - 1)],
{
    if v.len() == 0 {
        return 0;
    }
    let ghost before = v@;
    sort_ascending(v);
    proof {
        vstd::seq_lib::to_multiset_len(before);
        vstd::seq_lib::to_multiset_len(v@);
    }
    let last: usize = v.len() - 1;
    if rank < last {
        v[rank]
    } else {
        v[last]
    }
}

/// A frame with overflow and a rate is spread over the overflow's time on the wire, no longer than
/// the channel absorbs nor than a tenth of a second; any other is spread towards its deadline.
pub proof fn overflow_is_spread_at_the_rate(
    deadline_ns: u64,
    rate: u64,
    overflow: u64,
    max_spread_ns: u64,
    b: PaceBudget,
)
    requires
        overflow * 8 <= u64::MAX,
        call_ensures(native_budget, (deadline_ns, rate, overflow, max_spread_ns), b),
    ensures
        rate == 0 || overflow == 0 ==> b == (PaceBudget::UntilDeadline {
            deadline_ns,
            fraction_permille: 900,
            cap_ns: u64::MAX,
        }),
        rate > 0 && overflow > 0 ==> (b matches PaceBudget::Fixed(ns) && ns <= 100_000_000 && ns
            <= max_spread_ns && ns * rate <= overflow * 8 * 1_000_000_000),
        rate > 0 && overflow > 0 && overflow * 8 * 1_000_000_000 <= u64::MAX ==> (b matches
            PaceBudget::Fixed(ns) && (ns == 100_000_000 || ns == max_spread_ns || overflow * 8
            * 1_000_000_000 < (ns + 1) * rate)),
{
    if rate > 0 && overflow > 0 {
        let x = least(overflow * 8 * 1_000_000_000, u64::MAX as int);
        let r = rate as int;
        let q = x / r;
        lemma_fundamental_div_mod(x, r);
        lemma_mod_bound(x, r);
        assert(q >= 0 && q * r <= x < (q + 1) * r) by (nonlinear_arith)
            requires
                x == r * q + x % r,
                0 <= x % r < r,
                x >= 0,
        ;
        let ns = b->Fixed_0;
        assert(ns * r <= q * r) by (nonlinear_arith)
            requires
                ns <= q,
                r > 0,
        ;
    }
}

/// The burst is ten milliseconds at the rate, from 16 to 256 KiB; without a rate a quarter of the
/// frame, at least 128 KiB.
pub proof fn a_burst_is_ten_milliseconds(rate: u64, wire_bytes: usize, n: usize)
    requires
        rate * 10 <= u64::MAX,
        call_ensures(auto_burst_bytes, (rate, wire_bytes), n),
    ensures
        rate > 0 ==> 16_384 <= n <= 262_144 && (16_384 <= rate / 800 <= 262_144 ==> n == rate / 800)
            && (rate / 800 < 16_384 ==> n == 16_384) && (rate / 800 > 262_144 ==> n == 262_144),
        rate == 0 ==> n >= 131_072 && n >= wire_bytes / 4 && (n == 131_072 || n == wire_bytes / 4),
{
    assert(rate * 10 / 8000 == rate / 800);
}

/// A sealed frame bursts what is pinned, or what its rate allows, and only what is past that is
/// paced; its chunks and its floor are the plane's.
pub proof fn a_sealed_frame_paces_its_overflow(
    wire_bytes: usize,
    cap: Option<usize>,
    rate: u64,
    deadline_ns: u64,
    max_spread_ns: u64,
    p: SealedPlan,
    auto: usize,
    b: PaceBudget,
    overflow: u64,
)
    requires
        rate * 10 <= u64::MAX,
        wire_bytes * 8 <= u64::MAX,
        call_ensures(pace_sealed, (wire_bytes, cap, rate, deadline_ns, max_spread_ns), p),
        call_ensures(auto_burst_bytes, (rate, wire_bytes), auto),
        overflow == if wire_bytes > p.cfg.burst_bytes->0 {
            wire_bytes - p.cfg.burst_bytes->0
        } else {
            0
        },
        call_ensures(native_budget, (deadline_ns, rate, overflow, max_spread_ns), b),
    ensures
        cap is Some ==> p.cfg.burst_bytes == cap,
        cap is None ==> p.cfg.burst_bytes == Some(auto),
        p.budget == b,
        p.cfg.chunk == (ChunkPolicy::Adaptive { base: 16, max: 64 }),
        p.cfg.sleep_floor_ns == 500_000,
{
}

/// The channel absorbs two frames at the rate they come, and a tenth of a second where that is
/// unknown.
pub proof fn the_channel_absorbs_two_frames(hz: u32, ns: u64)
    requires
        call_ensures(max_spread, (hz,), ns),
    ensures
        hz == 0 ==> ns == 100_000_000,
        hz > 0 ==> ns * hz <= 2_000_000_000 < (ns + 1) * hz,
{
    if hz > 0 {
        let h = hz as int;
        let q = ns as int;
        lemma_fundamental_div_mod(2_000_000_000, h);
        lemma_mod_bound(2_000_000_000, h);
        assert(q * h <= 2_000_000_000 < (q + 1) * h) by (nonlinear_arith)
            requires
                2_000_000_000 == h * q + 2_000_000_000int % h,
                0 <= 2_000_000_000int % h < h,
        ;
    }
}

/// The burst ends with the packet that reaches its cap: all before it are under the cap together;
/// without a cap nothing bursts. Chunks follow the policy, and the sends take all of the overflow
/// and no more chunks than that needs.
pub proof fn a_schedule_bursts_up_to_its_cap(
    packets: &[Vec<u8>],
    cfg: &PaceCfg,
    budget_ns: u64,
    s: PaceSchedule,
    k: int,
)
    requires
        policy_ok(cfg.chunk, lens_of(packets@), cfg.burst_bytes, cfg.sleep_floor_ns, budget_ns),
        call_ensures(schedule, (packets, cfg, budget_ns), s),
    ensures
        s.burst_len <= packets@.len(),
        cfg.burst_bytes is None ==> s.burst_len == 0,
        cfg.burst_bytes matches Some(cap) ==> {
            &&& 1 <= k < s.burst_len ==> bytes_of(lens_of(packets@), k) < cap
            &&& s.burst_len < packets@.len() ==> s.burst_len >= 1 && bytes_of(
                lens_of(packets@),
                s.burst_len as int,
            ) >= cap
        },
        s.chunk >= 1 && s.steps >= 1,
        s.steps * s.chunk >= packets@.len() - s.burst_len,
        s.steps > 1 ==> (s.steps - 1) * s.chunk < packets@.len() - s.burst_len,
        cfg.chunk matches ChunkPolicy::Fixed(c) ==> s.chunk == c,
        cfg.chunk matches ChunkPolicy::Adaptive { base, max } ==> base <= max ==> base <= s.chunk
            <= max,
        cfg.chunk matches ChunkPolicy::Bounded { min_chunk, max_steps } ==> s.chunk >= min_chunk
            && s.steps <= max_steps,
{
    let n = packets@.len() - s.burst_len;
    let c = s.chunk as int;
    lemma_div_up(n, c);
    if let ChunkPolicy::Bounded { min_chunk, max_steps } = cfg.chunk {
        if n > 0 {
            bounded_schedules_stay_bounded(n, min_chunk, max_steps);
        }
    }
    if s.steps == 1 {
        assert(1 * c == c);
    }
    assert(n <= 0 || div_up(n, c) >= 1);
}

/// A frame's packets are sent each once and in order, in groups no larger than a chunk; none mixes
/// burst and overflow. Only a send of the overflow that is not the last is waited after, and the
/// waits are numbered in order.
pub proof fn every_packet_is_sent_once(s: &PaceSchedule, n: usize, out: Vec<PaceStep>, i: int)
    requires
        s.burst_len <= n,
        s.chunk > 0,
        s.steps == most(1, div_up(n - s.burst_len, s.chunk as int)),
        call_ensures(pace_frame, (s, n), out),
    ensures
        n == 0 <==> out@.len() == 0,
        n > 0 ==> out@[0].start == 0 && out@.last().end == n,
        0 <= i < out@.len() - 1 ==> out@[i].end == out@[i + 1].start,
        0 <= i < out@.len() ==> out@[i].start < out@[i].end && out@[i].end - out@[i].start
            <= s.chunk,
        0 <= i < out@.len() ==> out@[i].end <= s.burst_len || out@[i].start >= s.burst_len,
        0 <= i < out@.len() ==> (out@[i].after is Some <==> out@[i].start >= s.burst_len && i
            < out@.len() - 1),
        0 <= i < out@.len() ==> (out@[i].after matches Some(done) ==> 1 <= done < s.steps),
{
    sends_cover_the_frame(*s, n as int);
    let b = s.burst_len as int;
    let c = s.chunk as int;
    let nb = div_up(b, c);
    let nr = div_up(n - b, c);
    lemma_div_up(b, c);
    lemma_div_up(n - b, c);
    let q = sends_of(*s, n as int);
    assert(q.len() == nb + nr);
    if 0 <= i < q.len() {
        if i < nb {
            lemma_group_index(b, c, i);
            assert(q[i].start < b);
        } else {
            lemma_group_index(n - b, c, i - nb);
            assert(q[i].after == if i - nb + 1 == s.steps {
                None
            } else {
                Some((i - nb + 1) as usize)
            });
        }
    }
}

/// A budget is what was fixed, or the share of what is left to the deadline, up to its cap and
/// nothing past the deadline.
pub proof fn a_budget_is_a_share_of_what_is_left(b: &PaceBudget, now_ns: u64, ns: u64)
    requires
        call_ensures(budget_at, (b, now_ns), ns),
    ensures
        *b matches PaceBudget::Fixed(x) ==> ns == x,
        *b matches PaceBudget::UntilDeadline { deadline_ns, fraction_permille, cap_ns } ==> {
            &&& ns <= cap_ns
            &&& deadline_ns <= now_ns ==> ns == 0
            &&& deadline_ns > now_ns ==> ns * 1000 <= (deadline_ns - now_ns) * fraction_permille
            &&& deadline_ns > now_ns && ns < cap_ns ==> (deadline_ns - now_ns) * fraction_permille
                < (ns + 1) * 1000
        },
{
    if let PaceBudget::UntilDeadline { deadline_ns, fraction_permille, cap_ns } = *b {
        let slack = most(deadline_ns - now_ns, 0);
        assert(slack * fraction_permille >= 0) by (nonlinear_arith)
            requires
                slack >= 0,
        ;
        assert(0 * fraction_permille == 0);
    }
}

/// The sends of a frame aim at even shares of its budget: the first part at the start, all of them
/// at its end, and in order between.
pub proof fn targets_share_the_budget(
    start_ns: u64,
    budget_ns: u64,
    done: usize,
    steps: usize,
    ns: u64,
)
    requires
        0 < steps && done <= steps && start_ns + budget_ns <= u64::MAX,
        call_ensures(pace_target, (start_ns, budget_ns, done, steps), ns),
    ensures
        start_ns <= ns <= start_ns + budget_ns,
        done == 0 ==> ns == start_ns,
        done == steps ==> ns == start_ns + budget_ns,
        (ns - start_ns) * steps <= budget_ns * done < (ns - start_ns + 1) * steps,
{
    lemma_target(start_ns, budget_ns, done as int, steps as int);
    let x = budget_ns * done;
    let d = steps as int;
    let q = x / d;
    lemma_fundamental_div_mod(x, d);
    lemma_mod_bound(x, d);
    assert(q * d <= x < (q + 1) * d) by (nonlinear_arith)
        requires
            x == d * q + x % d,
            0 <= x % d < d,
    ;
    if done == 0 {
        assert(x == 0) by (nonlinear_arith)
            requires
                x == budget_ns * done,
                done == 0,
        ;
    }
    if done == steps {
        vstd::arithmetic::div_mod::lemma_div_multiples_vanish(budget_ns as int, d);
        assert(d * budget_ns == budget_ns * d) by (nonlinear_arith);
    }
}

/// A wait ends at its target; one that has passed, or lies closer than the floor, is skipped.
pub proof fn a_wait_ends_at_its_target(target_ns: u64, now_ns: u64, floor_ns: u64, ns: Option<u64>)
    requires
        call_ensures(pace_sleep, (target_ns, now_ns, floor_ns), ns),
    ensures
        ns matches Some(x) ==> now_ns + x == target_ns && x >= floor_ns,
        ns is None <==> target_ns < now_ns || target_ns - now_ns < floor_ns,
{
}

/// A run hands out its sends one after the other and then none; the budget is looked at once more
/// when the burst has left.
pub proof fn a_run_hands_out_its_sends(
    packets: &[Vec<u8>],
    budget: PaceBudget,
    cfg: &PaceCfg,
    begun_ns: u64,
    fresh: PaceRun,
    r: &mut PaceRun,
    now_ns: u64,
    step: Option<PaceStep>,
    seen: u64,
)
    requires
        call_ensures(PaceRun::begin, (packets, budget, cfg, begun_ns), fresh),
        old(r).wf(),
        call_ensures(PaceRun::next, (r, now_ns), step),
        call_ensures(budget_at, (&old(r).budget, now_ns), seen),
    ensures
        fresh.at == 0 && !fresh.broken && fresh.packets == packets@.len(),
        fresh.start_ns == begun_ns && fresh.budget == budget && fresh.floor_ns
            == cfg.sleep_floor_ns,
        step is Some <==> !old(r).broken && old(r).at < old(r).sends@.len(),
        step matches Some(s) ==> s == old(r).sends@[old(r).at as int] && final(r).at == old(r).at
            + 1,
        step is None ==> *final(r) == *old(r),
        step is Some && step->0.start == old(r).sched.burst_len ==> final(r).pace_start_ns == now_ns
            && final(r).spread_ns == seen,
        step is Some && step->0.start != old(r).sched.burst_len ==> final(r).pace_start_ns == old(
            r).pace_start_ns && final(r).spread_ns == old(r).spread_ns,
        final(r).sends@ == old(r).sends@ && final(r).broken == old(r).broken,
{
    assert(old(r).sends.len() == old(r).sends@.len());
}

/// A run waits only after a send of the overflow that is not the last, towards that send's share
/// of the budget, and says in the end how long it took and whether it paced.
pub proof fn a_run_waits_for_its_share(
    r: &PaceRun,
    now_ns: u64,
    ns: Option<u64>,
    end_ns: u64,
    st: PaceStat,
    broken: &mut PaceRun,
)
    requires
        r.wf(),
        call_ensures(PaceRun::wait, (r, now_ns), ns),
        r.start_ns <= end_ns,
        call_ensures(PaceRun::stat, (r, end_ns), st),
        call_ensures(PaceRun::failed, (broken,), ()),
    ensures
        ns matches Some(x) ==> {
            &&& r.at > 0 && !r.broken && x >= r.floor_ns
            &&& r.sends@[r.at - 1].after matches Some(done) && now_ns + x == target_of(
                r.pace_start_ns,
                r.spread_ns,
                done as int,
                r.sched.steps as int,
            )
        },
        r.broken || r.at == 0 ==> ns is None,
        st.paced <==> r.sched.burst_len < r.packets,
        (end_ns - r.start_ns) / 1000 <= u32::MAX ==> st.spread_us == (end_ns - r.start_ns) / 1000,
        final(broken).broken && final(broken).at == old(broken).at,
{
    if r.at > 0 {
        if let Some(done) = r.sends@[r.at - 1].after {
            let b = r.sched.burst_len as int;
            let c = r.sched.chunk as int;
            lemma_div_up(b, c);
            lemma_div_up(r.packets - b, c);
            assert(r.at - 1 - div_up(b, c) < div_up(r.packets - b, c));
            lemma_target(r.pace_start_ns, r.spread_ns, done as int, r.sched.steps as int);
        }
    }
    if (end_ns - r.start_ns) / 1000 <= u32::MAX {
        vstd::arithmetic::div_mod::lemma_small_mod(
            ((end_ns - r.start_ns) / 1000) as nat,
            0x1_0000_0000,
        );
    }
}

/// The setting asks for a share from 1 to 90 percent; anything else is none.
pub proof fn a_share_is_one_to_ninety(setting: Option<&str>, pct: u32)
    requires
        call_ensures(video_drop_pct, (setting,), pct),
    ensures
        pct <= 90,
        setting is None ==> pct == 0,
        setting matches Some(s) ==> (text::parsed(s@, u32::MAX as nat) matches Some(n) ==> (1 <= n
            <= 90 ==> pct == n)),
        pct > 0 ==> setting is Some && text::parsed(setting->0@, u32::MAX as nat) == Some(
            pct as nat,
        ),
{
}

/// A packet stays exactly when its draw is at least the share; those that stay keep their order,
/// and every one that went is counted.
pub proof fn a_packet_goes_by_its_draw<T>(
    packets: &mut Vec<T>,
    pct: u32,
    draws: &Vec<u32>,
    dropped: u64,
    i: int,
)
    requires
        old(packets)@.len() <= draws@.len(),
        call_ensures(drop_drawn::<T>, (packets, pct, draws), dropped),
        0 <= i < old(packets)@.len(),
    ensures
        dropped + final(packets)@.len() == old(packets)@.len(),
        draws@[i] >= pct ==> final(packets)@.contains(old(packets)@[i]),
        (forall|k: int| 0 <= k < old(packets)@.len() ==> #[trigger] draws@[k] < pct) ==> final(
            packets)@.len() == 0,
        pct == 0 ==> final(packets)@ == old(packets)@,
        forall|x: T| #[trigger] final(packets)@.contains(x) ==> old(packets)@.contains(x),
{
    let all = old(packets)@;
    lemma_kept(all, draws@, pct, i);
    if pct == 0 {
        lemma_none_dropped(all, draws@);
    }
    if forall|k: int| 0 <= k < all.len() ==> #[trigger] draws@[k] < pct {
        lemma_all_dropped(all, draws@, pct);
    }
}

proof fn lemma_kept<T>(items: Seq<T>, draws: Seq<u32>, pct: u32, i: int)
    requires
        0 <= i < items.len(),
    ensures
        draws[i] >= pct ==> kept(items, draws, pct).contains(items[i]),
        forall|x: T| #[trigger] kept(items, draws, pct).contains(x) ==> items.contains(x),
    decreases items.len(),
{
    let d = items.drop_last();
    let rest = kept(d, draws, pct);
    let all = kept(items, draws, pct);
    if d.len() > 0 {
        lemma_kept(d, draws, pct, if i < d.len() {
            i
        } else {
            0
        });
    }
    if draws[i] >= pct {
        if i < d.len() {
            assert(d[i] == items[i]);
            let k = choose|k: int| 0 <= k < rest.len() && rest[k] == items[i];
            assert(all[k] == items[i]);
        } else {
            assert(all[all.len() - 1] == items[i]);
        }
    }
    assert forall|x: T| #[trigger] all.contains(x) implies items.contains(x) by {
        let k = choose|k: int| 0 <= k < all.len() && all[k] == x;
        if k < rest.len() {
            assert(rest[k] == x);
            assert(rest.contains(x));
            if d.len() > 0 {
                assert(d.contains(x));
                let j = choose|j: int| 0 <= j < d.len() && d[j] == x;
                assert(items[j] == x);
            }
        } else {
            assert(items[items.len() - 1] == x);
        }
    }
}

/// A grab may run at once while a frame is banked, and else waits for what is missing: never
/// longer than that takes to bank. A grab spends one frame, and time banks one for each interval,
/// up to a frame and a quarter.
pub proof fn a_grab_waits_for_what_is_missing(
    c: &mut CaptureCredit,
    now_ns: u64,
    interval_ns: u64,
    at: u64,
    d: &mut CaptureCredit,
)
    requires
        old(c).wf() && old(d).wf(),
        call_ensures(CaptureCredit::earliest, (c, now_ns, interval_ns), at),
        call_ensures(CaptureCredit::charge, (d,), ()),
    ensures
        at >= now_ns,
        final(c).last_ns == now_ns,
        final(c).credit <= 1_250_000_000,
        final(c).credit >= 1_000_000_000 ==> at == now_ns,
        final(c).credit < 1_000_000_000 && at < u64::MAX ==> (at - now_ns) * 1_000_000_000
            >= interval_ns * (1_000_000_000 - final(c).credit),
        final(c).credit < 1_000_000_000 && at < u64::MAX && at > now_ns ==> (at - now_ns - 1)
            * 1_000_000_000 < interval_ns * (1_000_000_000 - final(c).credit),
        now_ns <= old(c).last_ns || interval_ns == 0 ==> final(c).credit == old(c).credit,
        now_ns > old(c).last_ns && interval_ns > 0 ==> final(c).credit >= old(c).credit,
        now_ns - old(c).last_ns >= interval_ns && interval_ns > 0 && old(c).credit >= 0 ==> final(
            c).credit >= 1_000_000_000,
        old(d).credit >= 0 ==> final(d).credit == old(d).credit - 1_000_000_000,
        final(d).last_ns == old(d).last_ns,
{
    let frame = 1_000_000_000int;
    let e = most(now_ns - old(c).last_ns, 0);
    if interval_ns > 0 {
        assert(e * frame / interval_ns as int >= 0) by (nonlinear_arith)
            requires
                e >= 0,
                frame == 1_000_000_000,
                interval_ns > 0,
        ;
        if e >= interval_ns {
            assert(e * frame / interval_ns as int >= frame) by (nonlinear_arith)
                requires
                    e >= interval_ns,
                    frame == 1_000_000_000,
                    interval_ns > 0,
            ;
        }
        if e == 0 {
            assert(0 * frame / interval_ns as int == 0) by (nonlinear_arith)
                requires
                    interval_ns > 0,
            ;
        }
    }
}

/// A full bank is what a source begins with.
pub proof fn a_source_begins_with_a_full_bank(now_ns: u64, c: CaptureCredit)
    requires
        call_ensures(CaptureCredit::new, (now_ns,), c),
    ensures
        c.credit == 1_250_000_000 && c.last_ns == now_ns,
{
}

/// A percentile is one of the numbers, with as many at or below it as its rank says; nothing has
/// none but zero. The numbers stay, in order.
pub proof fn a_percentile_is_one_of_the_numbers(v: &mut Vec<u32>, rank: usize, r: u32, i: int)
    requires
        call_ensures(percentile_at, (v, rank), r),
    ensures
        final(v)@.len() == old(v)@.len(),
        old(v)@.len() == 0 ==> r == 0,
        old(v)@.len() > 0 ==> final(v)@.contains(r),
        0 <= i < final(v)@.len() && i <= rank ==> final(v)@[i] <= r,
        rank <= i < final(v)@.len() ==> r <= final(v)@[i],
        final(v)@.to_multiset() == old(v)@.to_multiset(),
{
    vstd::seq_lib::to_multiset_len(old(v)@);
    vstd::seq_lib::to_multiset_len(final(v)@);
    if old(v)@.len() > 0 {
        let k = least(rank as int, old(v)@.len() - 1);
        assert(final(v)@[k] == r);
    }
}

} // verus!
