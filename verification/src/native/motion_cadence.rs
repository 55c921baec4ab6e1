//! How evenly each pad's motion samples arrive: a log2 histogram of the gaps between them.
//!
//! Bucket `k` holds gaps from `2^(k-1)` up to `2^k` microseconds. A gap of [`STALL_GAP_NS`] or
//! more is a stop, not cadence, and is tallied apart so that it does not move the percentiles.

use vstd::arithmetic::power2::{lemma2_to64, lemma_pow2_strictly_increases, lemma_pow2_unfold, pow2};
use vstd::prelude::*;

verus! {

/// The last bucket saturates.
pub const BUCKETS: usize = 22;

pub const STALL_GAP_NS: u64 = 500_000_000;

/// `k` is the bucket of `us`: the first whose bound is above it, or the last one.
pub open spec fn is_bucket(us: u32, k: int) -> bool {
    &&& 0 <= k < BUCKETS
    &&& forall|j: int| 0 <= j < k ==> us >= #[trigger] pow2(j as nat)
    &&& k < BUCKETS - 1 ==> us < pow2(k as nat)
}

/// The bucket of a gap in microseconds.
pub fn bucket(us: u32) -> (k: usize)
    ensures
        is_bucket(us, k as int),
{
    let mut k: usize = 0;
    let mut bound: u32 = 1;
    proof {
        lemma2_to64();
    }
    while k < BUCKETS - 1 && us >= bound
        invariant
            k <= BUCKETS - 1,
            bound == pow2(k as nat),
            forall|j: int| 0 <= j < k ==> us >= #[trigger] pow2(j as nat),
        decreases BUCKETS - k,
    {
        proof {
            lemma2_to64();
            lemma_pow2_unfold((k + 1) as nat);
            if k < 21 {
                lemma_pow2_strictly_increases(k as nat, 22);
            }
        }
        k = k + 1;
        bound = bound * 2;
    }
    k
}

/// The bound a bucket reports: `2^k`, held to a `u32`, and nothing for the first.
pub open spec fn upper_of(k: int) -> int {
    if k <= 0 {
        0
    } else if k < 32 {
        pow2(k as nat) as int
    } else {
        u32::MAX as int
    }
}

/// The exclusive upper bound of a bucket, in microseconds.
pub fn bucket_upper_us(k: usize) -> (us: u32)
    ensures
        us == upper_of(k as int),
{
    if k == 0 {
        return 0;
    }
    if k >= 32 {
        return u32::MAX;
    }
    let mut us: u32 = 1;
    let mut i: usize = 0;
    proof {
        lemma2_to64();
    }
    while i < k
        invariant
            i <= k < 32,
            us == pow2(i as nat),
        decreases k - i,
    {
        proof {
            lemma2_to64();
            lemma_pow2_unfold((i + 1) as nat);
            lemma_pow2_strictly_increases(i as nat, 31);
        }
        us = us * 2;
        i = i + 1;
    }
    us
}

/// A rank, counted from 1.
pub open spec fn first_or(rank: u64) -> int {
    if rank == 0 {
        1
    } else {
        rank as int
    }
}

/// The sum of the first `k` counts.
pub open spec fn count_below(hist: Seq<u32>, k: int) -> int
    decreases k,
{
    if k <= 0 {
        0
    } else {
        count_below(hist, k - 1) + hist[k - 1]
    }
}

/// One pad's gaps.
pub struct PadCadence {
    pub last_ns: Option<u64>,
    pub hist: Vec<u32>,
    /// Gaps in `hist`.
    pub gaps: u64,
    /// The exact longest gap below a stall.
    pub max_us: u32,
    pub stalls: u32,
}

/// What a pad's cadence holds.
#[verifier::ext_equal]
pub struct PadView {
    pub last_ns: Option<u64>,
    pub hist: Seq<u32>,
    pub gaps: u64,
    pub max_us: u32,
    pub stalls: u32,
}

impl View for PadCadence {
    type V = PadView;

    open spec fn view(&self) -> PadView {
        PadView {
            last_ns: self.last_ns,
            hist: self.hist@,
            gaps: self.gaps,
            max_us: self.max_us,
            stalls: self.stalls,
        }
    }
}

pub open spec fn gap_to(then_ns: u64, now_ns: u64) -> int {
    if now_ns > then_ns {
        now_ns - then_ns
    } else {
        0
    }
}

impl PadView {
    /// The histogram holds exactly the gaps counted, none as long as a stall.
    pub open spec fn wf(self) -> bool {
        &&& self.hist.len() == BUCKETS
        &&& count_below(self.hist, BUCKETS as int) == self.gaps
        &&& self.max_us < STALL_GAP_NS / 1000
    }

    /// No bucket's count is exhausted.
    pub open spec fn has_room(self) -> bool {
        forall|i: int| 0 <= i < self.hist.len() ==> #[trigger] self.hist[i] < u32::MAX
    }

    pub open spec fn silent() -> PadView {
        PadView {
            last_ns: None,
            hist: Seq::new(BUCKETS as nat, |i: int| 0u32),
            gaps: 0,
            max_us: 0,
            stalls: 0,
        }
    }

    /// The cadence after an arrival whose gap falls into bucket `k`.
    pub open spec fn arrived(self, now_ns: u64, k: int) -> PadView {
        match self.last_ns {
            None => PadView { last_ns: Some(now_ns), ..self },
            Some(then_ns) => {
                let gap = gap_to(then_ns, now_ns);
                if gap >= STALL_GAP_NS {
                    PadView {
                        last_ns: Some(now_ns),
                        stalls: if self.stalls == u32::MAX {
                            u32::MAX
                        } else {
                            (self.stalls + 1) as u32
                        },
                        ..self
                    }
                } else {
                    PadView {
                        last_ns: Some(now_ns),
                        hist: self.hist.update(k, (self.hist[k] + 1) as u32),
                        gaps: (self.gaps + 1) as u64,
                        max_us: if gap / 1000 > self.max_us {
                            (gap / 1000) as u32
                        } else {
                            self.max_us
                        },
                        ..self
                    }
                }
            },
        }
    }

    /// This arrival ends a stall.
    pub open spec fn ends_stall(self, now_ns: u64) -> bool {
        self.last_ns matches Some(t) && gap_to(t, now_ns) >= STALL_GAP_NS
    }
}

proof fn lemma_count_zero(n: nat, k: int)
    requires
        0 <= k <= n,
    ensures
        count_below(Seq::new(n, |i: int| 0u32), k) == 0,
    decreases k,
{
    if k > 0 {
        lemma_count_zero(n, k - 1);
    }
}

proof fn lemma_count_update(hist: Seq<u32>, at: int, v: u32, k: int)
    requires
        0 <= at < hist.len(),
        0 <= k <= hist.len(),
    ensures
        count_below(hist.update(at, v), k) == count_below(hist, k) + if at < k {
            v - hist[at]
        } else {
            0
        },
    decreases k,
{
    if k > 0 {
        lemma_count_update(hist, at, v, k - 1);
    }
}

proof fn lemma_count_fits(hist: Seq<u32>, k: int)
    requires
        0 <= k <= hist.len(),
    ensures
        0 <= count_below(hist, k) <= k * u32::MAX,
    decreases k,
{
    if k > 0 {
        lemma_count_fits(hist, k - 1);
    }
}

impl PadCadence {
    pub fn new() -> (p: PadCadence)
        ensures
            p@ == PadView::silent(),
            p@.wf(),
    {
        proof {
            lemma_count_zero(BUCKETS as nat, BUCKETS as int);
        }
        let hist: Vec<u32> = vec![0u32; BUCKETS];
        assert(hist@ =~= Seq::new(BUCKETS as nat, |i: int| 0u32));
        PadCadence { last_ns: None, hist, gaps: 0, max_us: 0, stalls: 0 }
    }

    /// Books an arrival; `true` when it ends a stall.
    pub fn record(&mut self, now_ns: u64) -> (stalled: bool)
        requires
            old(self)@.wf(),
            old(self)@.has_room(),
        ensures
            final(self)@.wf(),
            stalled == old(self)@.ends_stall(now_ns),
            exists|k: int|
                {
                    &&& #[trigger] old(self)@.arrived(now_ns, k) == final(self)@
                    &&& old(self).last_ns matches Some(t) ==> gap_to(t, now_ns) < STALL_GAP_NS
                        ==> is_bucket((gap_to(t, now_ns) / 1000) as u32, k)
                },
    {
        let ghost before = self@;
        let prev: Option<u64> = self.last_ns;
        self.last_ns = Some(now_ns);
        match prev {
            None => {
                assert(before.arrived(now_ns, 0) =~= self@);
                false
            },
            Some(then_ns) => {
                let gap: u64 = now_ns.saturating_sub(then_ns);
                if gap >= STALL_GAP_NS {
                    self.stalls = self.stalls.saturating_add(1);
                    assert(before.arrived(now_ns, 0) =~= self@);
                    return true;
                }
                let us: u32 = (gap / 1000) as u32;
                if us > self.max_us {
                    self.max_us = us;
                }
                proof {
                    lemma_count_fits(before.hist, BUCKETS as int);
                }
                self.gaps = self.gaps + 1;
                let k: usize = bucket(us);
                proof {
                    lemma_count_update(
                        before.hist,
                        k as int,
                        (before.hist[k as int] + 1) as u32,
                        BUCKETS as int,
                    );
                }
                let n: u32 = self.hist[k];
                self.hist.set(k, n + 1);
                assert(before.arrived(now_ns, k as int) =~= self@);
                false
            },
        }
    }

    /// The bucket that holds the `rank`-th gap in ascending order, counted from 1.
    pub open spec fn holds_rank(hist: Seq<u32>, rank: int, k: int) -> bool {
        &&& 0 <= k < BUCKETS
        &&& forall|j: int| 0 <= j <= k ==> #[trigger] count_below(hist, j) < rank
        &&& k < BUCKETS - 1 ==> count_below(hist, k + 1) >= rank
    }

    /// The upper bound of the bucket that holds the gap of a rank (at least the first); nothing
    /// when there is no gap.
    pub fn percentile_us_le(&self, rank: u64) -> (us: Option<u32>)
        requires
            self@.wf(),
        ensures
            us is None <==> self.gaps == 0,
            us matches Some(v) ==> exists|k: int|
                #[trigger] Self::holds_rank(self.hist@, first_or(rank), k) && v == upper_of(k),
    {
        if self.gaps == 0 {
            return None;
        }
        let want: u64 = if rank == 0 {
            1
        } else {
            rank
        };
        let mut seen: u64 = 0;
        let mut k: usize = 0;
        while k < BUCKETS - 1
            invariant
                k <= BUCKETS - 1,
                self.hist@.len() == BUCKETS,
                seen == count_below(self.hist@, k as int),
                seen <= k * u32::MAX,
                want >= 1,
                self.gaps != 0,
                want == first_or(rank),
                forall|j: int| 0 <= j <= k ==> #[trigger] count_below(self.hist@, j) < want,
            decreases BUCKETS - k,
        {
            seen = seen + self.hist[k] as u64;
            proof {
                assert(seen == count_below(self.hist@, k + 1));
            }
            if seen >= want {
                proof {
                    assert(Self::holds_rank(self.hist@, want as int, k as int));
                }
                return Some(bucket_upper_us(k));
            }
            k = k + 1;
        }
        proof {
            assert(Self::holds_rank(self.hist@, want as int, k as int));
        }
        Some(bucket_upper_us(k))
    }
}

/// Every pad's cadence, by wire pad: two pads sharing one would measure each other's arrivals.
pub struct MotionCadence {
    pub pads: Vec<PadCadence>,
}

impl MotionCadence {
    pub open spec fn wf(self) -> bool {
        forall|i: int| 0 <= i < self.pads@.len() ==> (#[trigger] self.pads@[i])@.wf()
    }

    pub fn new(pads: usize) -> (c: MotionCadence)
        ensures
            c.wf(),
            c.pads@.len() == pads,
            forall|i: int| 0 <= i < pads ==> (#[trigger] c.pads@[i])@ == PadView::silent(),
    {
        let mut v: Vec<PadCadence> = Vec::new();
        while v.len() < pads
            invariant
                v@.len() <= pads,
                forall|i: int|
                    0 <= i < v@.len() ==> (#[trigger] v@[i])@ == PadView::silent() && v@[i]@.wf(),
            decreases pads - v@.len(),
        {
            v.push(PadCadence::new());
        }
        MotionCadence { pads: v }
    }

    /// Books an arrival of `pad`; `true` when it ends a stall. A pad past the table counts
    /// nothing. No other pad changes.
    pub fn record(&mut self, pad: u8, now_ns: u64) -> (stalled: bool)
        requires
            old(self).wf(),
            pad < old(self).pads@.len() ==> old(self).pads@[pad as int]@.has_room(),
        ensures
            final(self).wf(),
            final(self).pads@.len() == old(self).pads@.len(),
            forall|i: int|
                0 <= i < old(self).pads@.len() && i != pad ==> #[trigger] final(self).pads@[i]
                    == old(self).pads@[i],
            pad >= old(self).pads@.len() ==> !stalled,
            pad < old(self).pads@.len() ==> stalled == old(self).pads@[pad as int]@.ends_stall(
                now_ns,
            ) && exists|k: int|
                {
                    &&& #[trigger] old(self).pads@[pad as int]@.arrived(now_ns, k)
                        == final(self).pads@[pad as int]@
                    &&& old(self).pads@[pad as int].last_ns matches Some(t) ==> gap_to(t, now_ns)
                        < STALL_GAP_NS ==> is_bucket((gap_to(t, now_ns) / 1000) as u32, k)
                },
    {
        let i: usize = pad as usize;
        if i >= self.pads.len() {
            return false;
        }
        self.pads[i].record(now_ns)
    }
}

/// The bucket of a gap is the only one it fits.
pub proof fn a_gap_has_one_bucket(us: u32, j: int, k: int)
    requires
        is_bucket(us, j),
        is_bucket(us, k),
    ensures
        j == k,
{
    if j < k {
        assert(us >= pow2(j as nat));
    } else if k < j {
        assert(us >= pow2(k as nat));
    }
}

/// A bucket's report brackets its gaps: at or above half of it, and below it, the last bucket
/// apart.
pub proof fn a_report_is_within_a_factor_of_two(us: u32, k: int)
    requires
        is_bucket(us, k),
        us > 0,
        k < BUCKETS - 1,
    ensures
        upper_of(k) / 2 <= us < upper_of(k),
{
    lemma2_to64();
    if k == 0 {
        assert(us < pow2(0));
    } else {
        assert(us >= pow2((k - 1) as nat));
        lemma_pow2_unfold(k as nat);
    }
}

/// An arrival is a first one, the end of a stall, or one more gap: half a second is a stall, which
/// is tallied apart and moves no percentile; a gap is counted once, and the longest is kept.
pub proof fn an_arrival_is_counted_once(p: &mut PadCadence, now_ns: u64, stalled: bool)
    requires
        old(p)@.wf(),
        old(p)@.has_room(),
        call_ensures(PadCadence::record, (p, now_ns), stalled),
    ensures
        final(p).last_ns == Some(now_ns),
        stalled <==> (old(p).last_ns matches Some(t) && now_ns - t >= 500_000_000),
        old(p).last_ns is None ==> final(p).gaps == old(p).gaps && final(p).hist@ == old(p).hist@
            && final(p).stalls == old(p).stalls,
        stalled ==> final(p).gaps == old(p).gaps && final(p).hist@ == old(p).hist@ && final(
            p).max_us == old(p).max_us && (final(p).stalls == old(p).stalls + 1 || old(p).stalls
            == u32::MAX),
        old(p).last_ns is Some && !stalled ==> final(p).gaps == old(p).gaps + 1 && final(p).stalls
            == old(p).stalls && final(p).max_us >= old(p).max_us && final(p).max_us * 1000 >= now_ns
            - old(p).last_ns->0 - 999,
        old(p).last_ns is Some && !stalled ==> final(p).max_us == old(p).max_us || final(p).max_us
            * 1000 <= now_ns - old(p).last_ns->0,
{
    let k = choose|k: int|
        {
            &&& #[trigger] old(p)@.arrived(now_ns, k) == final(p)@
            &&& old(p).last_ns matches Some(t) ==> gap_to(t, now_ns) < STALL_GAP_NS
                ==> is_bucket((gap_to(t, now_ns) / 1000) as u32, k)
        };
    assert(old(p)@.arrived(now_ns, k) == final(p)@);
    lemma_count_fits(old(p)@.hist, BUCKETS as int);
}

/// A gap is booked in the bucket whose bounds hold it.
pub proof fn a_gap_is_booked_between_its_bounds(us: u32, k: usize, upper: u32)
    requires
        call_ensures(bucket, (us,), k),
        call_ensures(bucket_upper_us, (k,), upper),
    ensures
        k < 22,
        0 < us && k < 21 ==> us < upper && upper <= 2 * us,
        us == 0 ==> k == 0,
        us >= 1_048_576 ==> k == 21,
{
    lemma2_to64();
    if us > 0 && k < 21 {
        a_report_is_within_a_factor_of_two(us, k as int);
        if k > 0 {
            lemma_pow2_unfold(k as nat);
            assert(us >= pow2((k - 1) as nat));
        } else {
            assert(us < pow2(0));
        }
    }
    if us == 0 && k > 0 {
        assert(us >= pow2(0int as nat));
    }
    if us >= 1_048_576 && k < 21 {
        if k < 20 {
            lemma_pow2_strictly_increases(k as nat, 20);
        }
    }
}

/// A percentile is there as soon as there is a gap, and lies where its rank does: fewer gaps are
/// below its bucket than its rank, and enough up to it.
pub proof fn a_percentile_lies_where_its_rank_does(p: &PadCadence, rank: u64, us: Option<u32>)
    requires
        p@.wf(),
        call_ensures(PadCadence::percentile_us_le, (p, rank), us),
    ensures
        us is None <==> p.gaps == 0,
        us matches Some(v) ==> exists|k: int|
            0 <= k < 22 && v == upper_of(k) && #[trigger] count_below(p.hist@, k) < first_or(rank)
                && (k < 21 ==> count_below(p.hist@, k + 1) >= first_or(rank)),
        first_or(rank) >= 1 && (rank > 0 ==> first_or(rank) == rank),
{
    if let Some(v) = us {
        let k = choose|k: int|
            #[trigger] PadCadence::holds_rank(p.hist@, first_or(rank), k) && v == upper_of(k);
        assert(PadCadence::holds_rank(p.hist@, first_or(rank), k));
        assert(count_below(p.hist@, k) < first_or(rank));
    }
}

/// Each pad has its own cadence: an arrival of one changes no other, and a pad past the table
/// changes nothing.
pub proof fn pads_are_apart(
    pads: usize,
    fresh: MotionCadence,
    c: &mut MotionCadence,
    pad: u8,
    now_ns: u64,
    stalled: bool,
    i: int,
)
    requires
        call_ensures(MotionCadence::new, (pads,), fresh),
        old(c).wf(),
        call_ensures(MotionCadence::record, (c, pad, now_ns), stalled),
        0 <= i < old(c).pads@.len(),
    ensures
        fresh.pads@.len() == pads,
        forall|j: int|
            0 <= j < pads ==> (#[trigger] fresh.pads@[j]).gaps == 0 && fresh.pads@[j].last_ns is None
                && fresh.pads@[j].stalls == 0,
        final(c).pads@.len() == old(c).pads@.len(),
        i != pad ==> final(c).pads@[i] == old(c).pads@[i],
        i == pad ==> final(c).pads@[i].last_ns == Some(now_ns),
        i == pad ==> (stalled <==> (old(c).pads@[i].last_ns matches Some(t) && now_ns - t
            >= 500_000_000)),
        pad >= old(c).pads@.len() ==> !stalled,
{
    assert forall|j: int| 0 <= j < pads implies (#[trigger] fresh.pads@[j]).gaps == 0
        && fresh.pads@[j].last_ns is None && fresh.pads@[j].stalls == 0 by {
        assert(fresh.pads@[j]@ == PadView::silent());
    }
    if i == pad {
        let k = choose|k: int|
            {
                &&& #[trigger] old(c).pads@[i]@.arrived(now_ns, k) == final(c).pads@[i]@
                &&& old(c).pads@[i].last_ns matches Some(t) ==> gap_to(t, now_ns) < STALL_GAP_NS
                    ==> is_bucket((gap_to(t, now_ns) / 1000) as u32, k)
            };
        assert(old(c).pads@[i]@.arrived(now_ns, k) == final(c).pads@[i]@);
    }
}

} // verus!
