//! The send thread: what a streamed access unit is opened and closed with, and what one window of
//! sends is measured by.

use crate::native::stream::encode;
use crate::send_pacing;
use crate::send_pacing::PaceStat;
use vstd::prelude::*;

verus! {

/// With no access unit in hand the loop still revisits its other duties.
pub const IDLE_TICK_NS: u64 = 50_000_000;

/// The compositors a session can stream.
#[derive(Clone, Copy, Debug, PartialEq, Eq, Structural)]
pub enum Compositor {
    Gamescope,
    Kwin,
    Mutter,
    Wlroots,
    Hyprland,
}

/// Whether a session may switch modes mid-stream: not under gamescope (a resize restarts the
/// nested game), not when the mode is part of the client's identity, and not on a display whose
/// mode belongs to someone else.
pub fn reconfig_allowed(compositor: Option<Compositor>, per_client_mode: bool, shared: bool) -> (ok:
    bool)
    ensures
        ok == (compositor != Some(Compositor::Gamescope) && !per_client_mode && !shared),
{
    let gamescope: bool = match compositor {
        Some(Compositor::Gamescope) => true,
        _ => false,
    };
    !gamescope && !per_client_mode && !shared
}

/// Wire bits that belong to the send side.
#[derive(Clone, Copy, Debug, PartialEq, Eq, Structural)]
pub struct SendFlags {
    pub slice_stream: u32,
    pub repeat: u32,
    pub probe: u32,
}

/// The flags of a whole access unit on the wire: its own, and the mark of repeated content.
pub open spec fn frame_flags_of(w: SendFlags, flags: u32, repeat: bool) -> u32 {
    flags | if repeat {
        w.repeat
    } else {
        0
    }
}

pub fn frame_flags(w: &SendFlags, flags: u32, repeat: bool) -> (f: u32)
    ensures
        f == frame_flags_of(*w, flags, repeat),
{
    flags | if repeat {
        w.repeat
    } else {
        0
    }
}

/// An access unit that is streamed chunk by chunk.
#[derive(Clone, Copy, Debug, PartialEq, Eq, Structural)]
pub struct StreamedOpen {
    pub spread_us: u32,
    pub paced: bool,
    /// What is left of the unit's one burst budget; `None` with pacing off.
    pub burst_left: Option<usize>,
}

/// How a streamed unit is opened.
#[derive(Clone, Copy, Debug, PartialEq, Eq, Structural)]
pub struct Opened {
    pub flags: u32,
    /// A unit was still open and is given up: the client ages it out.
    pub abandoned: bool,
}

/// The burst budget of a new unit: the pinned one, else ten milliseconds at the pace rate; none
/// with neither a pin nor a rate.
pub open spec fn burst_budget(burst_cap: Option<usize>, pace_rate_bps: u64) -> Option<usize> {
    match burst_cap {
        Some(c) => Some(c),
        None => if pace_rate_bps == 0 {
            None
        } else {
            Some(
                send_pacing::least(
                    send_pacing::most(
                        pace_rate_bps * 10 / 8000,
                        send_pacing::BURST_MIN as int,
                    ),
                    send_pacing::BURST_MAX as int,
                ) as usize,
            )
        },
    }
}

/// Opens a unit at its first chunk.
pub fn open_streamed(
    open: &mut Option<StreamedOpen>,
    w: &SendFlags,
    flags: u32,
    slice_wire: bool,
    repeat: bool,
    burst_cap: Option<usize>,
    pace_rate_bps: u64,
) -> (o: Opened)
    requires
        pace_rate_bps * 10 <= u64::MAX,
    ensures
        o.abandoned == (*old(open) is Some),
        o.flags == flags | (if slice_wire {
            w.slice_stream
        } else {
            0
        }) | (if repeat {
            w.repeat
        } else {
            0
        }),
        *final(open) == Some(
            StreamedOpen {
                spread_us: 0,
                paced: false,
                burst_left: burst_budget(burst_cap, pace_rate_bps),
            },
        ),
{
    let abandoned: bool = open.is_some();
    let burst_left: Option<usize> = match burst_cap {
        Some(c) => Some(c),
        None => if pace_rate_bps == 0 {
            None
        } else {
            Some(send_pacing::auto_burst_bytes(pace_rate_bps, 0))
        },
    };
    *open = Some(StreamedOpen { spread_us: 0, paced: false, burst_left });
    Opened {
        flags: flags | (if slice_wire {
            w.slice_stream
        } else {
            0
        }) | (if repeat {
            w.repeat
        } else {
            0
        }),
        abandoned,
    }
}

/// The burst a flush of an open unit may use, or an error when no unit is open. What is left of
/// the unit's budget comes before the pinned cap.
pub fn flush_burst(open: &Option<StreamedOpen>, burst_cap: Option<usize>) -> (r: Result<
    Option<usize>,
    (),
>)
    ensures
        r is Err <==> *open is None,
        *open matches Some(s) ==> r == Ok::<Option<usize>, ()>(
            match s.burst_left {
                Some(left) => Some(left),
                None => burst_cap,
            },
        ),
{
    match open {
        Some(s) => Ok(
            match s.burst_left {
                Some(left) => Some(left),
                None => burst_cap,
            },
        ),
        None => Err(()),
    }
}

pub open spec fn sat_sub(a: int, b: int) -> int {
    if a > b {
        a - b
    } else {
        0
    }
}

pub open spec fn sat_add_u32(a: u32, b: u32) -> u32 {
    if a + b > u32::MAX {
        u32::MAX
    } else {
        (a + b) as u32
    }
}

/// Books a flush: its full wire size is charged to the unit's budget, its spread adds up.
pub fn flushed(open: &mut Option<StreamedOpen>, flush_bytes: usize, stat: &PaceStat)
    ensures
        *final(open) == match *old(open) {
            None => None,
            Some(s) => Some(
                StreamedOpen {
                    spread_us: sat_add_u32(s.spread_us, stat.spread_us),
                    paced: s.paced || stat.paced,
                    burst_left: match s.burst_left {
                        Some(left) => Some(sat_sub(left as int, flush_bytes as int) as usize),
                        None => None,
                    },
                },
            ),
        },
{
    match *open {
        None => {},
        Some(s) => {
            let burst_left: Option<usize> = match s.burst_left {
                Some(left) => Some(left.saturating_sub(flush_bytes)),
                None => None,
            };
            *open = Some(
                StreamedOpen {
                    spread_us: s.spread_us.saturating_add(stat.spread_us),
                    paced: s.paced || stat.paced,
                    burst_left,
                },
            );
        },
    }
}

/// Closes a unit with the send of its tail: the whole unit's spread, and whether any of it was
/// paced. Nothing when no unit is open.
pub fn close_streamed(open: &mut Option<StreamedOpen>, tail: &PaceStat) -> (r: Option<PaceStat>)
    ensures
        *final(open) is None,
        r == match *old(open) {
            None => None,
            Some(s) => Some(
                PaceStat {
                    spread_us: sat_add_u32(s.spread_us, tail.spread_us),
                    paced: s.paced || tail.paced,
                },
            ),
        },
{
    match open.take() {
        None => None,
        Some(s) => Some(
            PaceStat {
                spread_us: s.spread_us.saturating_add(tail.spread_us),
                paced: s.paced || tail.paced,
            },
        ),
    }
}

/// One unit never bursts more than its budget: over any run of flushes, what is left only
/// shrinks, and by the bytes flushed until nothing is left.
pub proof fn a_unit_has_one_burst_budget(budget: int, flushes: Seq<nat>)
    requires
        budget >= 0,
    ensures
        left_after(budget, flushes) == sat_sub(budget, sum(flushes)),
        0 <= left_after(budget, flushes) <= budget,
    decreases flushes.len(),
{
    if flushes.len() > 0 {
        a_unit_has_one_burst_budget(budget, flushes.drop_last());
        lemma_sum_nonnegative(flushes.drop_last());
    }
}

proof fn lemma_sum_nonnegative(flushes: Seq<nat>)
    ensures
        sum(flushes) >= 0,
    decreases flushes.len(),
{
    if flushes.len() > 0 {
        lemma_sum_nonnegative(flushes.drop_last());
    }
}

pub open spec fn sum(flushes: Seq<nat>) -> int
    decreases flushes.len(),
{
    if flushes.len() == 0 {
        0
    } else {
        sum(flushes.drop_last()) + flushes.last()
    }
}

/// What [`flushed`] leaves of a budget after a run of flushes.
pub open spec fn left_after(budget: int, flushes: Seq<nat>) -> int
    decreases flushes.len(),
{
    if flushes.len() == 0 {
        budget
    } else {
        sat_sub(left_after(budget, flushes.drop_last()), flushes.last() as int)
    }
}

/// The smoothed send spread, three parts old to one part new: a single unit must not flip a
/// verdict built on it.
pub fn smooth_spread(prev_us: u32, spread_us: u32) -> (r: u32)
    ensures
        r == if prev_us == 0 {
            spread_us as int
        } else {
            (prev_us * 3 + spread_us) / 4
        },
{
    if prev_us == 0 {
        spread_us
    } else {
        ((prev_us as u64 * 3 + spread_us as u64) / 4) as u32
    }
}

/// How long the loop waits for the next message: a speed test's next filler wakes it early, but
/// not inside a streamed unit, where it cannot be pumped.
pub fn idle_wait(filler_due_ns: Option<u64>, unit_open: bool) -> (ns: u64)
    ensures
        ns == match filler_due_ns {
            Some(due) if !unit_open && due < IDLE_TICK_NS => due,
            _ => IDLE_TICK_NS,
        },
{
    match filler_due_ns {
        Some(due) => if !unit_open && due < IDLE_TICK_NS {
            due
        } else {
            IDLE_TICK_NS
        },
        None => IDLE_TICK_NS,
    }
}

/// The last of a run of shard sizes, to be applied between units only.
pub fn shard_to_apply(unit_open: bool, queued: &Vec<usize>) -> (s: Option<usize>)
    ensures
        s == if unit_open || queued@.len() == 0 {
            None
        } else {
            Some(queued@.last())
        },
{
    if unit_open || queued.len() == 0 {
        None
    } else {
        Some(queued[queued.len() - 1])
    }
}

/// What the encode thread says of a sent unit.
#[derive(Clone, Copy, Debug, PartialEq, Eq, Structural)]
pub struct FrameInfo {
    pub capture_ns: u64,
    pub flags: u32,
    pub encode_us: u32,
    pub queue_us: u32,
    pub ipc_us: u32,
    pub cap_us: u32,
    pub submit_us: u32,
    pub wait_us: u32,
    pub repeat: bool,
    /// The splits were measured; a recording that started since must not fold in zeros.
    pub was_measured: bool,
    /// The driver encoded the unit.
    pub driver: bool,
    /// The driver stamped its slot.
    pub split: bool,
}

/// Capture to sent, in microseconds.
pub fn host_us(now_ns: u64, capture_ns: u64) -> (us: u32)
    ensures
        us == encode::us_of(sat_sub(now_ns as int, capture_ns as int) as u64),
{
    let us: u64 = now_ns.saturating_sub(capture_ns) / 1000;
    if us > u32::MAX as u64 {
        u32::MAX
    } else {
        us as u32
    }
}

/// The stage lanes of a window.
#[derive(Clone, Copy, Debug, PartialEq, Eq, Structural)]
pub enum StageLane {
    Pool,
    DriverEncode,
    Ipc,
    Driver,
    Queue,
    Capture,
    Submit,
    Wait,
    Send,
}

/// One window of sends.
pub struct SendWindow {
    pub encode_us: Vec<u32>,
    pub pace_us: Vec<u32>,
    pub host: Vec<u32>,
    pub driver: Vec<u32>,
    pub pool: Vec<u32>,
    pub driver_encode: Vec<u32>,
    pub ipc: Vec<u32>,
    pub cap: Vec<u32>,
    pub submit: Vec<u32>,
    pub wait: Vec<u32>,
    pub queue: Vec<u32>,
    pub paced_frames: u64,
    pub immediate_frames: u64,
    pub new_frames: u64,
    pub repeat_frames: u64,
    pub driver_path: bool,
    pub driver_split: bool,
}

/// What a window holds.
#[verifier::ext_equal]
pub struct WindowView {
    pub encode_us: Seq<u32>,
    pub pace_us: Seq<u32>,
    pub host: Seq<u32>,
    pub driver: Seq<u32>,
    pub pool: Seq<u32>,
    pub driver_encode: Seq<u32>,
    pub ipc: Seq<u32>,
    pub cap: Seq<u32>,
    pub submit: Seq<u32>,
    pub wait: Seq<u32>,
    pub queue: Seq<u32>,
    pub paced_frames: int,
    pub immediate_frames: int,
    pub new_frames: int,
    pub repeat_frames: int,
    pub driver_path: bool,
    pub driver_split: bool,
}

/// `s`, with `x` at its end when `cond` holds.
pub open spec fn push_when(s: Seq<u32>, cond: bool, x: u32) -> Seq<u32> {
    if cond {
        s.push(x)
    } else {
        s
    }
}

pub open spec fn one_when(cond: bool) -> int {
    if cond {
        1
    } else {
        0
    }
}

impl View for SendWindow {
    type V = WindowView;

    open spec fn view(&self) -> WindowView {
        WindowView {
            encode_us: self.encode_us@,
            pace_us: self.pace_us@,
            host: self.host@,
            driver: self.driver@,
            pool: self.pool@,
            driver_encode: self.driver_encode@,
            ipc: self.ipc@,
            cap: self.cap@,
            submit: self.submit@,
            wait: self.wait@,
            queue: self.queue@,
            paced_frames: self.paced_frames as int,
            immediate_frames: self.immediate_frames as int,
            new_frames: self.new_frames as int,
            repeat_frames: self.repeat_frames as int,
            driver_path: self.driver_path,
            driver_split: self.driver_split,
        }
    }
}

impl WindowView {
    pub open spec fn empty() -> WindowView {
        WindowView {
            encode_us: Seq::empty(),
            pace_us: Seq::empty(),
            host: Seq::empty(),
            driver: Seq::empty(),
            pool: Seq::empty(),
            driver_encode: Seq::empty(),
            ipc: Seq::empty(),
            cap: Seq::empty(),
            submit: Seq::empty(),
            wait: Seq::empty(),
            queue: Seq::empty(),
            paced_frames: 0,
            immediate_frames: 0,
            new_frames: 0,
            repeat_frames: 0,
            driver_path: false,
            driver_split: false,
        }
    }

    /// The window with one more unit. A measured unit of the driver counts its own split, or its
    /// lump without one; a zero pool wait is unmeasured. A measured unit of the host counts its
    /// stages, the queue only when it was not a repeat.
    pub open spec fn noted(self, m: FrameInfo, stat: PaceStat, probe: bool, host_us: u32) -> WindowView {
        let split = m.was_measured && m.driver && m.split;
        let own = m.was_measured && !m.driver;
        WindowView {
            encode_us: self.encode_us.push(m.encode_us),
            pace_us: self.pace_us.push(stat.spread_us),
            host: push_when(self.host, !probe, host_us),
            driver: push_when(self.driver, m.was_measured && m.driver && !m.split, m.encode_us),
            pool: push_when(self.pool, split && m.queue_us > 0, m.queue_us),
            driver_encode: push_when(self.driver_encode, split, m.encode_us),
            ipc: push_when(self.ipc, split, m.ipc_us),
            cap: push_when(self.cap, own, m.cap_us),
            submit: push_when(self.submit, own, m.submit_us),
            wait: push_when(self.wait, m.was_measured, m.wait_us),
            queue: push_when(self.queue, own && !m.repeat, m.queue_us),
            paced_frames: self.paced_frames + one_when(stat.paced),
            immediate_frames: self.immediate_frames + one_when(!stat.paced),
            new_frames: self.new_frames + one_when(!m.repeat),
            repeat_frames: self.repeat_frames + one_when(m.repeat),
            driver_path: self.driver_path || (m.was_measured && m.driver),
            driver_split: self.driver_split || split,
        }
    }
}

impl SendWindow {
    /// The counts can take one more unit.
    pub open spec fn has_room(self) -> bool {
        &&& self.paced_frames < u64::MAX
        &&& self.immediate_frames < u64::MAX
        &&& self.new_frames < u64::MAX
        &&& self.repeat_frames < u64::MAX
    }

    pub fn new() -> (w: SendWindow)
        ensures
            w@ == WindowView::empty(),
    {
        SendWindow {
            encode_us: Vec::new(),
            pace_us: Vec::new(),
            host: Vec::new(),
            driver: Vec::new(),
            pool: Vec::new(),
            driver_encode: Vec::new(),
            ipc: Vec::new(),
            cap: Vec::new(),
            submit: Vec::new(),
            wait: Vec::new(),
            queue: Vec::new(),
            paced_frames: 0,
            immediate_frames: 0,
            new_frames: 0,
            repeat_frames: 0,
            driver_path: false,
            driver_split: false,
        }
    }

    /// Counts one sent unit.
    pub fn note(&mut self, m: &FrameInfo, stat: &PaceStat, probe: bool, host_us: u32)
        requires
            old(self).has_room(),
        ensures
            final(self)@ == old(self)@.noted(*m, *stat, probe, host_us),
    {
        self.encode_us.push(m.encode_us);
        self.pace_us.push(stat.spread_us);
        if !probe {
            self.host.push(host_us);
        }
        if m.was_measured {
            if m.driver {
                self.driver_path = true;
                if m.split {
                    self.driver_split = true;
                    if m.queue_us > 0 {
                        self.pool.push(m.queue_us);
                    }
                    self.driver_encode.push(m.encode_us);
                    self.ipc.push(m.ipc_us);
                } else {
                    self.driver.push(m.encode_us);
                }
            } else {
                self.cap.push(m.cap_us);
                self.submit.push(m.submit_us);
                if !m.repeat {
                    self.queue.push(m.queue_us);
                }
            }
            self.wait.push(m.wait_us);
        }
        if m.repeat {
            self.repeat_frames = self.repeat_frames + 1;
        } else {
            self.new_frames = self.new_frames + 1;
        }
        if stat.paced {
            self.paced_frames = self.paced_frames + 1;
        } else {
            self.immediate_frames = self.immediate_frames + 1;
        }
    }

    /// Starts the next window.
    pub fn clear(&mut self)
        ensures
            final(self)@ == WindowView::empty(),
    {
        *self = SendWindow::new();
    }

    /// The stages of the window, in order, each with its name: the driver's split once it stamped
    /// a slot, else its lump, else the host's own.
    pub open spec fn stage_list(w: WindowView) -> Seq<(StageLane, Seq<char>)> {
        if w.driver_split {
            seq![
                (StageLane::Pool, "pool"@),
                (StageLane::DriverEncode, "encode"@),
                (StageLane::Ipc, "ipc"@),
                (StageLane::Wait, "copy"@),
                (StageLane::Send, "send"@),
            ]
        } else if w.driver_path {
            seq![
                (StageLane::Driver, "driver"@),
                (StageLane::Wait, "copy"@),
                (StageLane::Send, "send"@),
            ]
        } else {
            seq![
                (StageLane::Queue, "queue"@),
                (StageLane::Capture, "capture"@),
                (StageLane::Submit, "submit"@),
                (StageLane::Wait, "encode"@),
                (StageLane::Send, "send"@),
            ]
        }
    }

    pub fn stages(&self) -> (v: Vec<(StageLane, &'static str)>)
        ensures
            v@.map_values(|p: (StageLane, &'static str)| (p.0, p.1@)) == Self::stage_list(self@),
    {
        let v: Vec<(StageLane, &'static str)> = if self.driver_split {
            vec![
                (StageLane::Pool, "pool"),
                (StageLane::DriverEncode, "encode"),
                (StageLane::Ipc, "ipc"),
                (StageLane::Wait, "copy"),
                (StageLane::Send, "send"),
            ]
        } else if self.driver_path {
            vec![
                (StageLane::Driver, "driver"),
                (StageLane::Wait, "copy"),
                (StageLane::Send, "send"),
            ]
        } else {
            vec![
                (StageLane::Queue, "queue"),
                (StageLane::Capture, "capture"),
                (StageLane::Submit, "submit"),
                (StageLane::Wait, "encode"),
                (StageLane::Send, "send"),
            ]
        };
        assert(v@.map_values(|p: (StageLane, &'static str)| (p.0, p.1@)) =~= Self::stage_list(
            self@,
        ));
        v
    }
}

impl WindowView {
    /// Every unit is counted once: paced or not, new or repeated.
    pub open spec fn balanced(self) -> bool {
        &&& self.paced_frames + self.immediate_frames == self.encode_us.len()
        &&& self.new_frames + self.repeat_frames == self.encode_us.len()
        &&& self.pace_us.len() == self.encode_us.len()
    }
}

/// A window counts every unit once, from its start on and whatever units it is given.
pub proof fn every_unit_is_counted_once(
    w: WindowView,
    m: FrameInfo,
    stat: PaceStat,
    probe: bool,
    host_us: u32,
)
    ensures
        WindowView::empty().balanced(),
        w.balanced() ==> w.noted(m, stat, probe, host_us).balanced(),
{
}

/// A counter's growth over a window, in the 32 bits a sample has for it.
pub open spec fn growth(before: u64, now: u64) -> int {
    sat_sub(now as int, before as int) % 0x1_0000_0000
}

/// What a window lost on the host.
#[derive(Clone, Copy, Debug, PartialEq, Eq, Structural)]
pub struct WindowLosses {
    /// Frames dropped at the driver's pool; unknown off the driver.
    pub frames_dropped: Option<u32>,
    /// Packets the send buffer refused.
    pub send_dropped: u32,
}

/// The losses of a window, from the session's counters at its start and end. Only a window with a
/// driver's unit in it knows of dropped frames: a path that cannot see them reports none, not 0.
pub fn window_losses(
    driver_path: bool,
    frames_before: u64,
    frames_now: u64,
    sends_before: u64,
    sends_now: u64,
) -> (l: WindowLosses)
    ensures
        l.frames_dropped is Some <==> driver_path,
        l.frames_dropped matches Some(n) ==> n == growth(frames_before, frames_now),
        l.send_dropped == growth(sends_before, sends_now),
{
    let frames: u64 = frames_now.saturating_sub(frames_before) % 0x1_0000_0000;
    let sends: u64 = sends_now.saturating_sub(sends_before) % 0x1_0000_0000;
    WindowLosses {
        frames_dropped: if driver_path {
            Some(frames as u32)
        } else {
            None
        },
        send_dropped: sends as u32,
    }
}

/// The recording session a window belongs to, while it is of the capture that runs now.
pub fn session_for(known: Option<(u64, u32)>, generation: u64) -> (id: Option<u32>)
    ensures
        id == match known {
            Some((g, id)) if g == generation => Some(id),
            _ => None,
        },
{
    match known {
        Some(k) => if k.0 == generation {
            Some(k.1)
        } else {
            None
        },
        None => None,
    }
}

/// A mode is switched mid-stream only where nothing else owns it.
pub proof fn a_mode_of_another_is_left_alone(
    c: Option<Compositor>,
    per_client: bool,
    shared: bool,
    ok: bool,
)
    requires
        call_ensures(reconfig_allowed, (c, per_client, shared), ok),
    ensures
        c == Some(Compositor::Gamescope) || per_client || shared ==> !ok,
        c != Some(Compositor::Gamescope) && !per_client && !shared ==> ok,
{
}

/// A unit goes out with its own flags and, exactly for repeated content, the mark of it.
pub proof fn a_repeat_is_marked(w: &SendFlags, flags: u32, repeat: bool, f: u32)
    requires
        flags & w.repeat == 0,
        call_ensures(frame_flags, (w, flags, repeat), f),
    ensures
        f & flags == flags,
        f & w.repeat == if repeat {
            w.repeat
        } else {
            0
        },
        f & !(flags | w.repeat) == 0,
{
    let r = w.repeat;
    assert(forall|x: u32, y: u32|
        x & y == 0 ==> #[trigger] (x | y) & x == x && (x | y) & y == y && (x | y) & !(x | y) == 0)
        by (bit_vector);
    assert((flags | 0) & flags == flags && (flags | 0) & r == flags & r && (flags | 0) & !(flags
        | r) == 0) by (bit_vector);
    assert(flags & r == 0 ==> (flags | r) & flags == flags && (flags | r) & r == r && (flags | r)
        & !(flags | r) == 0) by (bit_vector);
}

/// A streamed unit opens with its own flags and the marks of its wire and its content, gives up a
/// unit that was still open, and has the pinned burst, else ten milliseconds at the pace rate
/// within bounds, else none.
pub proof fn a_streamed_unit_opens_with_its_burst(
    open: &mut Option<StreamedOpen>,
    w: &SendFlags,
    flags: u32,
    slice_wire: bool,
    repeat: bool,
    cap: Option<usize>,
    rate: u64,
    o: Opened,
)
    requires
        flags & w.slice_stream == 0 && flags & w.repeat == 0 && w.slice_stream & w.repeat == 0,
        call_ensures(open_streamed, (open, w, flags, slice_wire, repeat, cap, rate), o),
    ensures
        o.abandoned <==> *old(open) is Some,
        o.flags & flags == flags,
        o.flags & w.slice_stream == if slice_wire {
            w.slice_stream
        } else {
            0
        },
        o.flags & w.repeat == if repeat {
            w.repeat
        } else {
            0
        },
        *final(open) matches Some(s) && s.spread_us == 0 && !s.paced && (cap is Some ==> s.burst_left
            == cap) && (cap is None && rate == 0 ==> s.burst_left is None) && (cap is None && rate
            > 0 ==> (s.burst_left matches Some(b) && send_pacing::BURST_MIN <= b
            <= send_pacing::BURST_MAX && (send_pacing::BURST_MIN <= rate * 10 / 8000
            <= send_pacing::BURST_MAX ==> b == rate * 10 / 8000))),
{
    let a = w.slice_stream;
    let b = w.repeat;
    let x: u32 = if slice_wire {
        a
    } else {
        0
    };
    let y: u32 = if repeat {
        b
    } else {
        0
    };
    assert((flags | x | y) & flags == flags) by (bit_vector);
    assert((flags | x | y) & a == x) by (bit_vector)
        requires
            flags & a == 0,
            a & b == 0,
            x == a || x == 0,
            y == b || y == 0,
    ;
    assert((flags | x | y) & b == y) by (bit_vector)
        requires
            flags & b == 0,
            a & b == 0,
            x == a || x == 0,
            y == b || y == 0,
    ;
}

/// A flush spends the unit's burst by its bytes until nothing is left, adds its spread, and a unit
/// that was paced once stays paced; without a unit there is nothing to spend.
pub proof fn a_flush_spends_the_burst(
    open: &mut Option<StreamedOpen>,
    bytes: usize,
    stat: &PaceStat,
    at: &Option<StreamedOpen>,
    cap: Option<usize>,
    r: Result<Option<usize>, ()>,
)
    requires
        call_ensures(flushed, (open, bytes, stat), ()),
        *at == *final(open),
        call_ensures(flush_burst, (at, cap), r),
    ensures
        *old(open) is None <==> *final(open) is None,
        r is Err <==> *old(open) is None,
        *old(open) matches Some(s) ==> {
            let n = (*final(open))->0;
            &&& n.paced <==> s.paced || stat.paced
            &&& s.spread_us + stat.spread_us <= u32::MAX ==> n.spread_us == s.spread_us
                + stat.spread_us
            &&& s.burst_left is None <==> n.burst_left is None
            &&& s.burst_left matches Some(left) ==> (bytes <= left ==> n.burst_left->0 == left
                - bytes) && (bytes > left ==> n.burst_left->0 == 0) && r == Ok::<
                Option<usize>,
                (),
            >(n.burst_left)
            &&& s.burst_left is None ==> r == Ok::<Option<usize>, ()>(cap)
        },
{
}

/// A unit is closed once, with all its sends in one.
pub proof fn a_unit_is_closed_once(
    open: &mut Option<StreamedOpen>,
    tail: &PaceStat,
    r: Option<PaceStat>,
)
    requires
        call_ensures(close_streamed, (open, tail), r),
    ensures
        *final(open) is None,
        r is Some <==> *old(open) is Some,
        *old(open) matches Some(s) ==> (r->0.paced <==> s.paced || tail.paced) && (s.spread_us
            + tail.spread_us <= u32::MAX ==> r->0.spread_us == s.spread_us + tail.spread_us)
            && r->0.spread_us >= s.spread_us,
{
}

/// The smoothed spread lies between what it was and what was seen, three parts to one.
pub proof fn a_spread_is_smoothed(prev: u32, seen: u32, r: u32)
    requires
        call_ensures(smooth_spread, (prev, seen), r),
    ensures
        prev == 0 ==> r == seen,
        prev > 0 ==> 4 * r <= 3 * prev + seen < 4 * r + 4,
{
}

/// The loop wakes every fifty milliseconds, and sooner only for filler it can pump.
pub proof fn an_idle_loop_wakes(due: Option<u64>, unit_open: bool, ns: u64)
    requires
        call_ensures(idle_wait, (due, unit_open), ns),
    ensures
        ns <= 50_000_000,
        ns < 50_000_000 ==> due == Some(ns) && !unit_open,
        !unit_open && (due matches Some(d) && d < 50_000_000) ==> Some(ns) == due,
{
}

/// A size is taken between units only, and the newest of those that wait.
pub proof fn a_size_changes_between_units(open: bool, queued: &Vec<usize>, s: Option<usize>)
    requires
        call_ensures(shard_to_apply, (open, queued), s),
    ensures
        open ==> s is None,
        s is Some <==> !open && queued@.len() > 0,
        s matches Some(x) ==> x == queued@[queued@.len() - 1],
{
}

/// The time on the host runs from capture to sent.
pub proof fn host_time_runs_from_capture(now_ns: u64, capture_ns: u64, us: u32)
    requires
        call_ensures(host_us, (now_ns, capture_ns), us),
    ensures
        now_ns <= capture_ns ==> us == 0,
        now_ns > capture_ns && (now_ns - capture_ns) / 1000 <= u32::MAX ==> us == (now_ns
            - capture_ns) / 1000,
{
}

/// A sent unit is counted once, as paced or not and as new or repeated, with its encode and pace
/// times; its stages only where they were measured, the driver's own apart from the host's, and its
/// time on the host unless it is a speed test's.
pub proof fn a_sent_unit_is_counted(
    w: &mut SendWindow,
    m: &FrameInfo,
    stat: &PaceStat,
    probe: bool,
    host_us: u32,
)
    requires
        old(w).has_room(),
        call_ensures(SendWindow::note, (w, m, stat, probe, host_us), ()),
    ensures
        final(w).encode_us@ == old(w).encode_us@.push(m.encode_us),
        final(w).pace_us@ == old(w).pace_us@.push(stat.spread_us),
        stat.paced <==> final(w).paced_frames == old(w).paced_frames + 1,
        !stat.paced <==> final(w).immediate_frames == old(w).immediate_frames + 1,
        m.repeat <==> final(w).repeat_frames == old(w).repeat_frames + 1,
        !m.repeat <==> final(w).new_frames == old(w).new_frames + 1,
        probe ==> final(w).host@ == old(w).host@,
        !probe ==> final(w).host@ == old(w).host@.push(host_us),
        !m.was_measured ==> final(w).wait@ == old(w).wait@ && final(w).driver@ == old(w).driver@
            && final(w).cap@ == old(w).cap@ && final(w).queue@ == old(w).queue@ && final(w).ipc@
            == old(w).ipc@ && final(w).pool@ == old(w).pool@ && final(w).submit@ == old(w).submit@,
        m.was_measured ==> final(w).wait@ == old(w).wait@.push(m.wait_us),
        m.was_measured && m.driver ==> final(w).driver_path && final(w).cap@ == old(w).cap@
            && final(w).submit@ == old(w).submit@ && final(w).queue@ == old(w).queue@,
        m.was_measured && m.driver && m.split ==> final(w).driver_split && final(w).driver_encode@
            == old(w).driver_encode@.push(m.encode_us) && final(w).ipc@ == old(w).ipc@.push(
            m.ipc_us,
        ) && final(w).driver@ == old(w).driver@,
        m.was_measured && m.driver && m.split && m.queue_us > 0 ==> final(w).pool@ == old(
            w).pool@.push(m.queue_us),
        m.was_measured && m.driver && !m.split ==> final(w).driver@ == old(w).driver@.push(
            m.encode_us,
        ),
        m.was_measured && !m.driver ==> final(w).cap@ == old(w).cap@.push(m.cap_us) && final(
            w).submit@ == old(w).submit@.push(m.submit_us) && final(w).driver@ == old(w).driver@,
        m.was_measured && !m.driver && !m.repeat ==> final(w).queue@ == old(w).queue@.push(
            m.queue_us,
        ),
{
    assert(final(w)@ == old(w)@.noted(*m, *stat, probe, host_us));
}

/// A cleared window, like a new one, holds nothing.
pub proof fn a_cleared_window_is_empty(w: &mut SendWindow, n: SendWindow)
    requires
        call_ensures(SendWindow::clear, (w,), ()),
        call_ensures(SendWindow::new, (), n),
    ensures
        final(w)@ == n@,
        n.encode_us@.len() == 0 && n.pace_us@.len() == 0 && n.host@.len() == 0 && n.wait@.len()
            == 0,
        n.paced_frames == 0 && n.immediate_frames == 0 && n.new_frames == 0 && n.repeat_frames
            == 0,
        !n.driver_path && !n.driver_split,
{
    assert(n@ == WindowView::empty());
}

/// A window's stages are those of the path its units took, and every one ends in the send.
pub proof fn stages_are_those_of_the_path(w: &SendWindow, v: Vec<(StageLane, &'static str)>, i: int)
    requires
        call_ensures(SendWindow::stages, (w,), v),
        0 <= i < v@.len(),
    ensures
        v@[v@.len() - 1].0 == StageLane::Send,
        v@[v@.len() - 2].0 == StageLane::Wait,
        v@[i].0 == StageLane::Pool || v@[i].0 == StageLane::Ipc || v@[i].0
            == StageLane::DriverEncode ==> w.driver_split,
        v@[i].0 == StageLane::Driver ==> w.driver_path && !w.driver_split,
        v@[i].0 == StageLane::Queue || v@[i].0 == StageLane::Capture || v@[i].0 == StageLane::Submit
            ==> !w.driver_path && !w.driver_split,
{
    let m = v@.map_values(|p: (StageLane, &'static str)| (p.0, p.1@));
    assert(m.len() == v@.len());
    assert(m[i].0 == v@[i].0);
    assert(m[m.len() - 1].0 == v@[v@.len() - 1].0);
    assert(m[m.len() - 2].0 == v@[v@.len() - 2].0);
}

/// A window lost what its counters grew by, and knows of dropped frames only through the driver.
pub proof fn losses_are_what_the_counters_grew(
    driver_path: bool,
    f0: u64,
    f1: u64,
    s0: u64,
    s1: u64,
    l: WindowLosses,
)
    requires
        f0 <= f1 < f0 + 0x1_0000_0000,
        s0 <= s1 < s0 + 0x1_0000_0000,
        call_ensures(window_losses, (driver_path, f0, f1, s0, s1), l),
    ensures
        l.frames_dropped == if driver_path {
            Some((f1 - f0) as u32)
        } else {
            None
        },
        l.send_dropped == s1 - s0,
{
    vstd::arithmetic::div_mod::lemma_small_mod((f1 - f0) as nat, 0x1_0000_0000);
    vstd::arithmetic::div_mod::lemma_small_mod((s1 - s0) as nat, 0x1_0000_0000);
}

/// A window belongs to a recording only while that one runs.
pub proof fn a_recording_is_of_this_capture(
    known: Option<(u64, u32)>,
    generation: u64,
    id: Option<u32>,
)
    requires
        call_ensures(session_for, (known, generation), id),
    ensures
        id matches Some(i) ==> known == Some((generation, i)),
        known matches Some(k) ==> (k.0 == generation ==> id == Some(k.1)),
{
}

} // verus!
