//! The send thread's turns: what it may do between units, what follows a sent unit, and when its
//! windows close.

use crate::native::stream::send;
use crate::native::stream::send::{
    host_us, session_for, smooth_spread, window_losses, FrameInfo, SendFlags, SendWindow,
    StreamedOpen, WindowLosses,
};
use crate::send_pacing::PaceStat;
use vstd::prelude::*;

verus! {

/// How often a window of sends is closed.
pub const WINDOW_NS: u64 = 2_000_000_000;

/// How often the layer under the thread is reported.
pub const EGRESS_NS: u64 = 30_000_000_000;

/// A session's counters; they only grow.
#[derive(Clone, Copy, Debug, PartialEq, Eq, Structural)]
pub struct SendCounters {
    pub packets_sent: u64,
    /// Packets the send buffer refused.
    pub send_dropped: u64,
    pub bytes_sent: u64,
    /// Frames the driver dropped at its pool.
    pub driver_dropped: u64,
}

/// One turn of the loop.
#[derive(Clone, Copy, Debug, PartialEq, Eq, Structural)]
pub struct Turn {
    /// No unit is open: a speed test may go on and the shard size may change.
    pub between_units: bool,
}

/// How long a unit took on the host, for the client.
#[derive(Clone, Copy, Debug, PartialEq, Eq, Structural)]
pub struct Timing {
    pub pts_ns: u64,
    pub host_us: u32,
    pub queue_us: u32,
    pub encode_us: u32,
    pub pace_us: u32,
    pub applied_phase_ns: i32,
}

/// What follows a sent unit.
#[derive(Clone, Copy, Debug, PartialEq, Eq, Structural)]
pub struct AfterSend {
    /// The session's first packet is out.
    pub first_packet: bool,
    pub timing: Option<Timing>,
    /// The kernel's queue is to be looked at.
    pub sample_wire: bool,
}

/// The layer under the thread since it was last reported.
#[derive(Clone, Copy, Debug, PartialEq, Eq, Structural)]
pub struct Egress {
    pub sent: u64,
    pub send_dropped: u64,
}

/// A closed window.
pub struct Closed {
    pub elapsed_ns: u64,
    pub bytes: u64,
    /// Packets refused over the window, as counted.
    pub refused: u64,
    pub losses: WindowLosses,
    pub window: SendWindow,
}

/// What a look at the clock closes.
pub struct Ticked {
    pub egress: Option<Egress>,
    pub closed: Option<Closed>,
}

/// Where a window's sample goes.
#[derive(Clone, Copy, Debug, PartialEq, Eq, Structural)]
pub enum Recording {
    /// Nothing is recorded.
    Off,
    Known(u32),
    /// The capture does not know this session yet.
    Register,
}

/// The send thread.
pub struct SendThread {
    /// The unit that is streamed chunk by chunk, while one is.
    pub streamed: Option<StreamedOpen>,
    pub window: SendWindow,
    /// The smoothed spread of a unit.
    pub spread_us: u32,
    /// The capture and the session in it that samples go to.
    pub session: Option<(u64, u32)>,
    pub window_ns: u64,
    pub window_bytes: u64,
    pub window_refused: u64,
    pub window_driver: u64,
    pub egress_ns: u64,
    pub egress_sent: u64,
    pub egress_refused: u64,
}

/// The send thread.
#[verifier::ext_equal]
pub struct ThreadView {
    pub streamed: Option<StreamedOpen>,
    pub window: send::WindowView,
    pub spread_us: u32,
    pub session: Option<(u64, u32)>,
    pub window_ns: u64,
    pub window_bytes: u64,
    pub window_refused: u64,
    pub window_driver: u64,
    pub egress_ns: u64,
    pub egress_sent: u64,
    pub egress_refused: u64,
}

impl View for SendThread {
    type V = ThreadView;

    open spec fn view(&self) -> ThreadView {
        ThreadView {
            streamed: self.streamed,
            window: self.window@,
            spread_us: self.spread_us,
            session: self.session,
            window_ns: self.window_ns,
            window_bytes: self.window_bytes,
            window_refused: self.window_refused,
            window_driver: self.window_driver,
            egress_ns: self.egress_ns,
            egress_sent: self.egress_sent,
            egress_refused: self.egress_refused,
        }
    }
}

/// A unit of a speed test.
pub open spec fn is_probe(m: FrameInfo, bits: SendFlags) -> bool {
    m.flags & bits.probe != 0
}

/// A phase in the 32 bits the wire has for it.
pub open spec fn clamped(phase_ns: i64) -> int {
    if phase_ns < i32::MIN {
        i32::MIN as int
    } else if phase_ns > i32::MAX {
        i32::MAX as int
    } else {
        phase_ns as int
    }
}

fn clamp(phase_ns: i64) -> (p: i32)
    ensures
        p == clamped(phase_ns),
{
    if phase_ns < i32::MIN as i64 {
        i32::MIN
    } else if phase_ns > i32::MAX as i64 {
        i32::MAX
    } else {
        phase_ns as i32
    }
}

/// Capture to sent, in microseconds.
pub open spec fn host_time(now_ns: u64, capture_ns: u64) -> u32 {
    crate::native::stream::encode::us_of(
        send::sat_sub(now_ns as int, capture_ns as int) as u64,
    )
}

/// The smoothed spread with one more unit.
pub open spec fn smoothed(prev_us: u32, spread_us: u32) -> int {
    if prev_us == 0 {
        spread_us as int
    } else {
        (prev_us * 3 + spread_us) / 4
    }
}

impl ThreadView {
    /// The thread once a unit is out. It is counted only while someone reads the counts.
    pub open spec fn after(self, m: FrameInfo, stat: PaceStat, bits: SendFlags, counted: bool, now_ns: u64) -> ThreadView {
        ThreadView {
            spread_us: smoothed(self.spread_us, stat.spread_us) as u32,
            window: if counted {
                self.window.noted(m, stat, is_probe(m, bits), host_time(now_ns, m.capture_ns))
            } else {
                self.window
            },
            ..self
        }
    }

    /// The report on the layer below is due.
    pub open spec fn egress_due(self, now_ns: u64) -> bool {
        send::sat_sub(now_ns as int, self.egress_ns as int) >= EGRESS_NS
    }

    /// The window is to be closed.
    pub open spec fn window_due(self, now_ns: u64) -> bool {
        send::sat_sub(now_ns as int, self.window_ns as int) >= WINDOW_NS
    }

    /// The thread once what is due is closed.
    pub open spec fn ticked(self, c: SendCounters, now_ns: u64) -> ThreadView {
        let a = if self.egress_due(now_ns) {
            ThreadView {
                egress_ns: now_ns,
                egress_sent: c.packets_sent,
                egress_refused: c.send_dropped,
                ..self
            }
        } else {
            self
        };
        if self.window_due(now_ns) {
            ThreadView {
                window: send::WindowView::empty(),
                window_ns: now_ns,
                window_bytes: c.bytes_sent,
                window_refused: c.send_dropped,
                window_driver: c.driver_dropped,
                ..a
            }
        } else {
            a
        }
    }

    /// The counters stand at or past what they were at the thread's last looks.
    pub open spec fn reached(self, c: SendCounters) -> bool {
        &&& self.egress_sent <= c.packets_sent
        &&& self.egress_refused <= c.send_dropped
        &&& self.window_bytes <= c.bytes_sent
        &&& self.window_refused <= c.send_dropped
    }
}

impl SendThread {
    /// A thread that begins; `driver_dropped` is what the driver dropped before.
    pub fn new(now_ns: u64, driver_dropped: u64) -> (t: SendThread)
        ensures
            t@ == (ThreadView {
                streamed: None,
                window: send::WindowView::empty(),
                spread_us: 0,
                session: None,
                window_ns: now_ns,
                window_bytes: 0,
                window_refused: 0,
                window_driver: driver_dropped,
                egress_ns: now_ns,
                egress_sent: 0,
                egress_refused: 0,
            }),
    {
        SendThread {
            streamed: None,
            window: SendWindow::new(),
            spread_us: 0,
            session: None,
            window_ns: now_ns,
            window_bytes: 0,
            window_refused: 0,
            window_driver: driver_dropped,
            egress_ns: now_ns,
            egress_sent: 0,
            egress_refused: 0,
        }
    }

    /// The next turn; none once the session stops. A speed test spliced into a streamed unit would
    /// push its tail past the deadline, and a unit keeps the shard size it began with.
    pub fn turn(&self, stop: bool) -> (t: Option<Turn>)
        ensures
            t == if stop {
                None
            } else {
                Some(Turn { between_units: self.streamed is None })
            },
    {
        if stop {
            None
        } else {
            Some(Turn { between_units: self.streamed.is_none() })
        }
    }

    /// A whole unit is out. Its timing is stamped against the capture the wire carries; a speed
    /// test's filler has none, and is no first packet.
    pub fn sent(
        &mut self,
        m: &FrameInfo,
        stat: &PaceStat,
        bits: &SendFlags,
        counted: bool,
        phase_ns: i64,
        now_ns: u64,
    ) -> (a: AfterSend)
        requires
            counted ==> old(self).window.has_room(),
        ensures
            final(self)@ == old(self)@.after(*m, *stat, *bits, counted, now_ns),
            a.first_packet == !is_probe(*m, *bits),
            a.sample_wire == counted,
            match a.timing {
                None => is_probe(*m, *bits),
                Some(t) => !is_probe(*m, *bits) && t.pts_ns == m.capture_ns && t.host_us
                    == host_time(now_ns, m.capture_ns) && t.queue_us == m.queue_us && t.encode_us
                    == m.encode_us && t.pace_us == stat.spread_us && t.applied_phase_ns == clamped(
                    phase_ns,
                ),
            },
    {
        let probe: bool = m.flags & bits.probe != 0;
        let took: u32 = host_us(now_ns, m.capture_ns);
        self.spread_us = smooth_spread(self.spread_us, stat.spread_us);
        if counted {
            self.window.note(m, stat, probe, took);
        }
        AfterSend {
            first_packet: !probe,
            timing: if probe {
                None
            } else {
                Some(
                    Timing {
                        pts_ns: m.capture_ns,
                        host_us: took,
                        queue_us: m.queue_us,
                        encode_us: m.encode_us,
                        pace_us: stat.spread_us,
                        applied_phase_ns: clamp(phase_ns),
                    },
                )
            },
            sample_wire: counted,
        }
    }

    /// A look at the clock: what is due is handed out and begins anew.
    pub fn tick(&mut self, c: &SendCounters, now_ns: u64) -> (t: Ticked)
        requires
            old(self)@.reached(*c),
        ensures
            final(self)@ == old(self)@.ticked(*c, now_ns),
            final(self)@.reached(*c),
            match t.egress {
                None => !old(self)@.egress_due(now_ns),
                Some(e) => old(self)@.egress_due(now_ns) && e.sent == c.packets_sent - old(
                    self,
                ).egress_sent && e.send_dropped == c.send_dropped - old(self).egress_refused,
            },
            match t.closed {
                None => !old(self)@.window_due(now_ns),
                Some(w) => {
                    &&& old(self)@.window_due(now_ns)
                    &&& w.elapsed_ns == now_ns - old(self).window_ns
                    &&& w.bytes == c.bytes_sent - old(self).window_bytes
                    &&& w.refused == c.send_dropped - old(self).window_refused
                    &&& w.window@ == old(self)@.window
                    &&& w.losses.frames_dropped is Some <==> old(self).window.driver_path
                    &&& w.losses.frames_dropped matches Some(n) ==> n == send::growth(
                        old(self).window_driver,
                        c.driver_dropped,
                    )
                    &&& w.losses.send_dropped == send::growth(
                        old(self).window_refused,
                        c.send_dropped,
                    )
                },
            },
    {
        let egress: Option<Egress> = if now_ns.saturating_sub(self.egress_ns) >= EGRESS_NS {
            let e: Egress = Egress {
                sent: c.packets_sent - self.egress_sent,
                send_dropped: c.send_dropped - self.egress_refused,
            };
            self.egress_ns = now_ns;
            self.egress_sent = c.packets_sent;
            self.egress_refused = c.send_dropped;
            Some(e)
        } else {
            None
        };
        let closed: Option<Closed> = if now_ns.saturating_sub(self.window_ns) >= WINDOW_NS {
            let losses: WindowLosses = window_losses(
                self.window.driver_path,
                self.window_driver,
                c.driver_dropped,
                self.window_refused,
                c.send_dropped,
            );
            let mut window: SendWindow = SendWindow::new();
            std::mem::swap(&mut window, &mut self.window);
            let w: Closed = Closed {
                elapsed_ns: now_ns - self.window_ns,
                bytes: c.bytes_sent - self.window_bytes,
                refused: c.send_dropped - self.window_refused,
                losses,
                window,
            };
            self.window_ns = now_ns;
            self.window_bytes = c.bytes_sent;
            self.window_refused = c.send_dropped;
            self.window_driver = c.driver_dropped;
            Some(w)
        } else {
            None
        };
        Ticked { egress, closed }
    }

    /// Where the sample of a closed window goes: a new capture does not know the session yet.
    pub fn recording(&self, armed: bool, generation: u64) -> (r: Recording)
        ensures
            r == if !armed {
                Recording::Off
            } else {
                match self.session {
                    Some((g, id)) if g == generation => Recording::Known(id),
                    _ => Recording::Register,
                }
            },
    {
        if !armed {
            return Recording::Off;
        }
        match session_for(self.session, generation) {
            Some(id) => Recording::Known(id),
            None => Recording::Register,
        }
    }

    /// The capture knows the session from now on.
    pub fn registered(&mut self, generation: u64, id: u32)
        ensures
            final(self)@ == (ThreadView { session: Some((generation, id)), ..old(self)@ }),
    {
        self.session = Some((generation, id));
    }
}

/// A look at the clock, with the counters as they stood.
#[verifier::ext_equal]
pub struct Look {
    pub counters: SendCounters,
    pub now_ns: u64,
}

/// The thread after a run of looks.
pub open spec fn after_looks(t: ThreadView, looks: Seq<Look>) -> ThreadView
    decreases looks.len(),
{
    if looks.len() == 0 {
        t
    } else {
        after_looks(t, looks.drop_last()).ticked(looks.last().counters, looks.last().now_ns)
    }
}

/// The bytes and refused packets that the windows closed by a run of looks report in all, and the
/// packets its egress reports do.
pub open spec fn reported(t: ThreadView, looks: Seq<Look>) -> (int, int, int)
    decreases looks.len(),
{
    if looks.len() == 0 {
        (0, 0, 0)
    } else {
        let (bytes, refused, sent) = reported(t, looks.drop_last());
        let at = after_looks(t, looks.drop_last());
        let c = looks.last().counters;
        let closes = at.window_due(looks.last().now_ns);
        (
            bytes + (if closes {
                c.bytes_sent - at.window_bytes
            } else {
                0
            }),
            refused + (if closes {
                c.send_dropped - at.window_refused
            } else {
                0
            }),
            sent + (if at.egress_due(looks.last().now_ns) {
                c.packets_sent - at.egress_sent
            } else {
                0
            }),
        )
    }
}

/// Nothing is reported twice and nothing is left out: over any run of looks, what the closed
/// windows and the egress reports say in all is what the counters grew by up to the last of each.
pub proof fn windows_add_up(t: ThreadView, looks: Seq<Look>)
    ensures
        ({
            let end = after_looks(t, looks);
            reported(t, looks) == (
                end.window_bytes - t.window_bytes,
                end.window_refused - t.window_refused,
                end.egress_sent - t.egress_sent,
            )
        }),
    decreases looks.len(),
{
    if looks.len() > 0 {
        windows_add_up(t, looks.drop_last());
    }
}

/// A new thread has no unit open, no session and nothing counted, and both its clocks run from now.
pub proof fn a_new_thread_counts_from_now(now_ns: u64, dropped: u64, t: SendThread)
    requires
        call_ensures(SendThread::new, (now_ns, dropped), t),
    ensures
        t.streamed is None && t.session is None && t.spread_us == 0,
        t.window_ns == now_ns && t.egress_ns == now_ns,
        t.window_bytes == 0 && t.window_refused == 0 && t.egress_sent == 0 && t.egress_refused == 0,
        t.window_driver == dropped,
        t.window@.encode_us.len() == 0,
{
    assert(t@.streamed is None);
}

/// The loop ends exactly when it is told to; a speed test and a new size wait for the unit that is
/// open.
pub proof fn a_turn_respects_an_open_unit(t: &SendThread, stop: bool, turn: Option<Turn>)
    requires
        call_ensures(SendThread::turn, (t, stop), turn),
    ensures
        turn is None <==> stop,
        turn matches Some(x) ==> (x.between_units <==> t.streamed is None),
{
}

/// A unit of the stream is timed for the client by the capture it carries, and a speed test's
/// filler is not; it is counted only while someone reads the counts.
pub proof fn a_sent_unit_is_timed(
    t: &mut SendThread,
    m: &FrameInfo,
    stat: &PaceStat,
    bits: &SendFlags,
    counted: bool,
    phase_ns: i64,
    now_ns: u64,
    a: AfterSend,
)
    requires
        counted ==> old(t).window.has_room(),
        call_ensures(SendThread::sent, (t, m, stat, bits, counted, phase_ns, now_ns), a),
    ensures
        a.timing is Some <==> m.flags & bits.probe == 0,
        a.first_packet <==> m.flags & bits.probe == 0,
        a.sample_wire <==> counted,
        a.timing matches Some(x) ==> {
            &&& x.pts_ns == m.capture_ns && x.queue_us == m.queue_us && x.encode_us == m.encode_us
            &&& x.pace_us == stat.spread_us
            &&& now_ns >= m.capture_ns && (now_ns - m.capture_ns) / 1000 <= u32::MAX ==> x.host_us
                == (now_ns - m.capture_ns) / 1000
            &&& i32::MIN <= phase_ns <= i32::MAX ==> x.applied_phase_ns == phase_ns
            &&& phase_ns > i32::MAX ==> x.applied_phase_ns == i32::MAX
            &&& phase_ns < i32::MIN ==> x.applied_phase_ns == i32::MIN
        },
        counted ==> final(t)@.window.encode_us == old(t)@.window.encode_us.push(m.encode_us),
        !counted ==> final(t)@.window == old(t)@.window,
        final(t).streamed == old(t).streamed && final(t).session == old(t).session,
        final(t).window_ns == old(t).window_ns && final(t).egress_ns == old(t).egress_ns,
{
    assert(final(t)@ == old(t)@.after(*m, *stat, *bits, counted, now_ns));
}

/// A window closes after two seconds and a report on the layer below after thirty: each tells what
/// its counters grew by since the last one, and the next begins there. Nothing is closed sooner.
pub proof fn a_window_closes_after_two_seconds(
    t: &mut SendThread,
    c: &SendCounters,
    now_ns: u64,
    k: Ticked,
)
    requires
        old(t)@.reached(*c),
        call_ensures(SendThread::tick, (t, c, now_ns), k),
    ensures
        k.closed is Some <==> now_ns - old(t).window_ns >= 2_000_000_000,
        k.egress is Some <==> now_ns - old(t).egress_ns >= 30_000_000_000,
        k.closed matches Some(w) ==> {
            &&& w.elapsed_ns == now_ns - old(t).window_ns
            &&& w.bytes + old(t).window_bytes == c.bytes_sent
            &&& w.refused + old(t).window_refused == c.send_dropped
            &&& w.window@ == old(t)@.window
            &&& final(t).window_ns == now_ns && final(t).window_bytes == c.bytes_sent
            &&& final(t).window_refused == c.send_dropped && final(t).window_driver
                == c.driver_dropped
            &&& final(t)@.window.encode_us.len() == 0
            &&& w.losses.frames_dropped is Some <==> old(t).window.driver_path
        },
        k.closed is None ==> final(t)@.window == old(t)@.window && final(t).window_ns == old(
            t).window_ns && final(t).window_bytes == old(t).window_bytes,
        k.egress matches Some(e) ==> e.sent + old(t).egress_sent == c.packets_sent && e.send_dropped
            + old(t).egress_refused == c.send_dropped && final(t).egress_ns == now_ns
            && final(t).egress_sent == c.packets_sent,
        k.egress is None ==> final(t).egress_ns == old(t).egress_ns && final(t).egress_sent == old(
            t).egress_sent,
        final(t).streamed == old(t).streamed && final(t).session == old(t).session,
{
    assert(final(t)@ == old(t)@.ticked(*c, now_ns));
}

/// A sample goes to the session it was registered as, while that capture runs; another capture
/// asks for a registration, and none takes nothing.
pub proof fn a_sample_goes_to_its_session(
    t: &mut SendThread,
    generation: u64,
    id: u32,
    at: &SendThread,
    armed: bool,
    asked: u64,
    r: Recording,
)
    requires
        call_ensures(SendThread::registered, (t, generation, id), ()),
        *at == *final(t),
        call_ensures(SendThread::recording, (at, armed, asked), r),
    ensures
        !armed ==> r == Recording::Off,
        armed && asked == generation ==> r == Recording::Known(id),
        armed && asked != generation ==> r == Recording::Register,
{
    assert(final(t)@.session == Some((generation, id)));
}

} // verus!
