//! The sources that test the protocol: frames made up, and frames encoded in software.

use crate::update::Platform;
use vstd::prelude::*;
use vstd::string::StringExecFns;

verus! {

/// Sixty frames a second, in whole milliseconds.
pub const SYNTHETIC_INTERVAL_NS: u64 = 16_000_000;

/// Bytes of a made-up frame.
pub const SYNTHETIC_FRAME_BYTES: usize = 65_536;

/// The wire's bits for a picture and for the start of a group.
#[derive(Clone, Copy, Debug, PartialEq, Eq, Structural)]
pub struct SourceFlags {
    pub pic: u32,
    pub sof: u32,
}

/// The flags of a unit: every made-up frame starts a group, an encoded one only as a keyframe.
pub fn source_flags(bits: &SourceFlags, keyframe: bool) -> (flags: u32)
    ensures
        flags == if keyframe {
            bits.pic | bits.sof
        } else {
            bits.pic
        },
{
    if keyframe {
        bits.pic | bits.sof
    } else {
        bits.pic
    }
}

/// A run of made-up frames.
#[derive(Clone, Copy, Debug, PartialEq, Eq, Structural)]
pub struct Synthetic {
    pub next: u32,
    pub frames: u32,
}

impl Synthetic {
    pub fn new(frames: u32) -> (s: Synthetic)
        ensures
            s == (Synthetic { next: 0, frames }),
    {
        Synthetic { next: 0, frames }
    }

    /// The number of the frame to send now; none once all are out or the session stops.
    pub fn step(&mut self, stop: bool) -> (idx: Option<u32>)
        ensures
            idx == if !stop && old(self).next < old(self).frames {
                Some(old(self).next)
            } else {
                None
            },
            *final(self) == if stop {
                *old(self)
            } else {
                stepped(*old(self))
            },
    {
        if stop || self.next >= self.frames {
            return None;
        }
        let i: u32 = self.next;
        self.next = i + 1;
        Some(i)
    }
}

/// How frames are encoded in software.
#[derive(Clone, Copy, Debug, PartialEq, Eq, Structural)]
pub struct SoftwarePlan {
    pub hz: u32,
    pub interval_ns: u64,
    pub bitrate_bps: u64,
}

/// Why there is no software source.
pub open spec fn no_software(platform: Platform, codec: Seq<char>) -> Option<Seq<char>> {
    if platform != Platform::Linux {
        Some("the software source needs the software encoder, which is Linux-only"@)
    } else if codec != "H264"@ {
        Some(
            "the software source encodes H.264 only, and "@ + codec + " was negotiated"@,
        )
    } else {
        None
    }
}

/// Plans the software source. A refresh of nothing counts as one frame a second.
pub fn plan_software(platform: Platform, codec: &str, refresh_hz: u32, bitrate_kbps: u32) -> (r:
    Result<SoftwarePlan, String>)
    ensures
        match r {
            Ok(p) => {
                &&& no_software(platform, codec@) is None
                &&& p.hz == (if refresh_hz == 0 {
                    1
                } else {
                    refresh_hz
                })
                &&& p.interval_ns == 1_000_000_000int / p.hz as int
                &&& p.bitrate_bps == bitrate_kbps * 1000
            },
            Err(why) => no_software(platform, codec@) == Some(why@),
        },
{
    if platform != Platform::Linux {
        return Err(
            "the software source needs the software encoder, which is Linux-only".to_owned(),
        );
    }
    if !crate::text::same(codec, "H264") {
        return Err(
            "the software source encodes H.264 only, and ".to_owned().concat(codec).concat(
                " was negotiated",
            ),
        );
    }
    let hz: u32 = if refresh_hz == 0 {
        1
    } else {
        refresh_hz
    };
    Ok(
        SoftwarePlan {
            hz,
            interval_ns: 1_000_000_000 / hz as u64,
            bitrate_bps: bitrate_kbps as u64 * 1000,
        },
    )
}

/// A run after one more step that is not stopped.
pub open spec fn stepped(s: Synthetic) -> Synthetic {
    if s.next < s.frames {
        Synthetic { next: (s.next + 1) as u32, ..s }
    } else {
        s
    }
}

/// A run after `n` steps.
pub open spec fn run_after(s: Synthetic, n: nat) -> Synthetic
    decreases n,
{
    if n == 0 {
        s
    } else {
        stepped(run_after(s, (n - 1) as nat))
    }
}

/// The frames that `n` steps send.
pub open spec fn sent(s: Synthetic, n: nat) -> Seq<u32>
    decreases n,
{
    if n == 0 {
        Seq::empty()
    } else {
        let before = run_after(s, (n - 1) as nat);
        if before.next < before.frames {
            sent(s, (n - 1) as nat).push(before.next)
        } else {
            sent(s, (n - 1) as nat)
        }
    }
}

proof fn lemma_next(frames: u32, n: nat)
    ensures
        run_after(Synthetic { next: 0, frames }, n) == (Synthetic {
            next: if n < frames {
                n as u32
            } else {
                frames
            },
            frames,
        }),
    decreases n,
{
    if n > 0 {
        lemma_next(frames, (n - 1) as nat);
    }
}

/// A run sends the frames from the first to the last, each once and in order, unless it is
/// stopped: `n` steps from the start send the first `n` of them, or all.
pub proof fn every_frame_is_sent_once(frames: u32, n: nat)
    ensures
        sent(Synthetic { next: 0, frames }, n) == Seq::new(
            if n < frames {
                n
            } else {
                frames as nat
            },
            |i: int| i as u32,
        ),
    decreases n,
{
    lemma_next(frames, n);
    if n > 0 {
        every_frame_is_sent_once(frames, (n - 1) as nat);
        lemma_next(frames, (n - 1) as nat);
    }
    assert(sent(Synthetic { next: 0, frames }, n) =~= Seq::new(
        if n < frames {
            n
        } else {
            frames as nat
        },
        |i: int| i as u32,
    ));
}

/// A source's unit has the picture bit, and the group bit exactly as a keyframe.
pub proof fn a_source_marks_its_keyframes(bits: &SourceFlags, keyframe: bool, flags: u32)
    requires
        bits.pic & bits.sof == 0,
        call_ensures(source_flags, (bits, keyframe), flags),
    ensures
        flags & bits.pic == bits.pic,
        flags & bits.sof == if keyframe {
            bits.sof
        } else {
            0
        },
{
    let p = bits.pic;
    let s = bits.sof;
    assert((p | s) & p == p && (p | s) & s == s && p & p == p) by (bit_vector);
}

/// A run sends its frames from the first on, one at a step, and stops when it is told to or is
/// through; a stopped step sends nothing and loses nothing.
pub proof fn a_run_sends_the_next_frame(
    frames: u32,
    fresh: Synthetic,
    s: &mut Synthetic,
    stop: bool,
    idx: Option<u32>,
)
    requires
        call_ensures(Synthetic::new, (frames,), fresh),
        call_ensures(Synthetic::step, (s, stop), idx),
    ensures
        fresh.next == 0 && fresh.frames == frames,
        idx is Some <==> !stop && old(s).next < old(s).frames,
        idx matches Some(i) ==> i == old(s).next && final(s).next == i + 1,
        idx is None ==> final(s).next == old(s).next,
        final(s).frames == old(s).frames,
{
}

/// The software source runs on Linux for H.264 alone, at the refresh and rate that were agreed; a
/// refresh of nothing is one frame a second.
pub proof fn the_software_source_keeps_to_what_it_can(
    platform: Platform,
    codec: &str,
    refresh_hz: u32,
    bitrate_kbps: u32,
    r: Result<SoftwarePlan, String>,
)
    requires
        call_ensures(plan_software, (platform, codec, refresh_hz, bitrate_kbps), r),
    ensures
        r is Ok <==> platform == Platform::Linux && codec@ == seq!['H', '2', '6', '4'],
        r matches Ok(p) ==> p.hz >= 1 && (refresh_hz > 0 ==> p.hz == refresh_hz) && p.bitrate_bps
            == bitrate_kbps * 1000 && p.interval_ns * p.hz <= 1_000_000_000 < (p.interval_ns + 1)
            * p.hz,
{
    reveal_strlit("H264");
    assert("H264"@ =~= seq!['H', '2', '6', '4']);
    if let Ok(p) = r {
        let h = p.hz as int;
        vstd::arithmetic::div_mod::lemma_fundamental_div_mod(1_000_000_000, h);
        vstd::arithmetic::div_mod::lemma_mod_bound(1_000_000_000, h);
        let q = p.interval_ns as int;
        assert(q * h <= 1_000_000_000 < (q + 1) * h) by (nonlinear_arith)
            requires
                1_000_000_000 == h * q + 1_000_000_000int % h,
                0 <= 1_000_000_000int % h < h,
        ;
    }
}

/// The synthetic source sends a frame of 64 KiB every 16 milliseconds.
pub proof fn the_synthetic_source_keeps_its_pace()
    ensures
        SYNTHETIC_INTERVAL_NS == 16 * 1_000_000,
        SYNTHETIC_FRAME_BYTES == 64 * 1024,
{
}

} // verus!
