//! The streaming-stats recorder: one capture at a time, bounded in memory, with a header taken
//! from the first session that registers.
//!
//! Samples and link minutes are the caller's; the recorder stamps and keeps them. Files, clocks
//! and locks stay with the caller. `*_ms` without `unix` are of one monotonic clock.

use crate::civil;
use crate::text;
use vstd::prelude::*;
use vstd::string::StringExecFns;

verus! {

/// About three hours at one sample in two seconds. Past it a capture keeps its start.
pub const MAX_SAMPLES: usize = 5_400;

/// A character of a recording's id.
pub open spec fn id_char(c: char) -> bool {
    ||| 'A' <= c <= 'Z'
    ||| 'a' <= c <= 'z'
    ||| '0' <= c <= '9'
    ||| c == '.'
    ||| c == '_'
    ||| c == '-'
}

/// An id that names a file in its own directory and nothing else.
pub open spec fn is_valid_id(id: Seq<char>) -> bool {
    &&& id.len() > 0
    &&& id != "."@
    &&& id != ".."@
    &&& forall|i: int| 0 <= i < id.len() ==> id_char(#[trigger] id[i])
}

/// Whether an id names a file in its own directory and nothing else.
pub fn valid_id(id: &str) -> (ok: bool)
    ensures
        ok == is_valid_id(id@),
{
    if id.is_empty() || text::same(id, ".") || text::same(id, "..") {
        return false;
    }
    let v: Vec<char> = text::chars_of(id);
    let mut i: usize = 0;
    while i < v.len()
        invariant
            i <= v@.len(),
            v@ == id@,
            forall|k: int| 0 <= k < i ==> id_char(#[trigger] id@[k]),
        decreases v@.len() - i,
    {
        let c: char = v[i];
        let ok: bool = ('A' <= c && c <= 'Z') || ('a' <= c && c <= 'z') || ('0' <= c && c <= '9')
            || c == '.' || c == '_' || c == '-';
        if !ok {
            assert(!id_char(id@[i as int]));
            return false;
        }
        i = i + 1;
    }
    true
}

/// `n` in decimal with leading zeros up to `width` digits.
pub open spec fn padded(n: nat, width: nat) -> Seq<char> {
    let d = text::decimal(n);
    Seq::new(
        if width > d.len() {
            (width - d.len()) as nat
        } else {
            0
        },
        |i: int| '0',
    ) + d
}

fn pad(n: u64, width: usize) -> (s: String)
    ensures
        s@ == padded(n as nat, width as nat),
{
    let d: String = text::decimal_u64(n);
    let len: usize = text::chars_of(d.as_str()).len();
    let mut s: String = String::new();
    let mut i: usize = 0;
    let zeros: usize = if width > len {
        width - len
    } else {
        0
    };
    while i < zeros
        invariant
            i <= zeros,
            s@ == Seq::new(i as nat, |k: int| '0'),
        decreases zeros - i,
    {
        s.push('0');
        i = i + 1;
        assert(s@ =~= Seq::new(i as nat, |k: int| '0'));
    }
    s.append(d.as_str());
    s
}

/// The date and time of day of a second count since the epoch: the id's stem.
pub open spec fn is_stem(stem: Seq<char>, secs: nat, w: nat, h: nat) -> bool {
    exists|y: nat, m: nat, d: nat|
        #![trigger civil::day_number(y as int, m as int, d as int)]
        {
            &&& civil::is_date(y as int, m as int, d as int)
            &&& civil::day_number(y as int, m as int, d as int) == secs / 86_400
            &&& stem == id_text(y, m, d, secs % 86_400, w, h)
        }
}

/// `2026-06-26T20-14-03Z_5120x1440`, for a date, a second of the day and a resolution.
pub open spec fn id_text(y: nat, m: nat, d: nat, tod: nat, w: nat, h: nat) -> Seq<char> {
    padded(y, 4) + "-"@ + padded(m, 2) + "-"@ + padded(d, 2) + "T"@ + padded(tod / 3600, 2) + "-"@
        + padded(tod % 3600 / 60, 2) + "-"@ + padded(tod % 60, 2) + "Z_"@ + text::decimal(w)
        + "x"@ + text::decimal(h)
}

/// A start and a resolution give one id.
pub proof fn a_start_has_one_id(a: Seq<char>, b: Seq<char>, secs: nat, w: nat, h: nat)
    requires
        is_stem(a, secs, w, h),
        is_stem(b, secs, w, h),
    ensures
        a == b,
{
    let (y1, m1, d1) = choose|y: nat, m: nat, d: nat|
        #![trigger civil::day_number(y as int, m as int, d as int)]
        {
            &&& civil::is_date(y as int, m as int, d as int)
            &&& civil::day_number(y as int, m as int, d as int) == secs / 86_400
            &&& a == id_text(y, m, d, secs % 86_400, w, h)
        };
    let (y2, m2, d2) = choose|y: nat, m: nat, d: nat|
        #![trigger civil::day_number(y as int, m as int, d as int)]
        {
            &&& civil::is_date(y as int, m as int, d as int)
            &&& civil::day_number(y as int, m as int, d as int) == secs / 86_400
            &&& b == id_text(y, m, d, secs % 86_400, w, h)
        };
    civil::a_day_has_one_date(
        y1 as int,
        m1 as int,
        d1 as int,
        y2 as int,
        m2 as int,
        d2 as int,
    );
}

/// The id of a capture: its start and resolution, in characters every file system takes.
pub fn capture_id(unix_ms: u64, width: u32, height: u32) -> (id: String)
    ensures
        is_stem(id@, unix_ms as nat / 1000, width as nat, height as nat),
{
    let secs: u64 = unix_ms / 1000;
    let days: u64 = secs / 86_400;
    let tod: u64 = secs % 86_400;
    let (y, mo, d): (i64, u32, u32) = civil::civil_from_days(days as i64);
    proof {
        lemma_year_after_epoch(y as int, mo as int, d as int);
    }
    let id: String = pad(y as u64, 4).concat("-").concat(pad(mo as u64, 2).as_str()).concat(
        "-",
    ).concat(pad(d as u64, 2).as_str()).concat("T").concat(pad(tod / 3600, 2).as_str()).concat(
        "-",
    ).concat(pad(tod % 3600 / 60, 2).as_str()).concat("-").concat(
        pad(tod % 60, 2).as_str(),
    ).concat("Z_").concat(text::decimal_u64(width as u64).as_str()).concat("x").concat(
        text::decimal_u64(height as u64).as_str(),
    );
    proof {
        assert(civil::day_number(y as nat as int, mo as nat as int, d as nat as int) == days);
        assert(id@ == id_text(
            y as nat,
            mo as nat,
            d as nat,
            tod as nat,
            width as nat,
            height as nat,
        ));
    }
    id
}

proof fn lemma_year_after_epoch(y: int, m: int, d: int)
    requires
        civil::is_date(y, m, d),
        civil::day_number(y, m, d) >= 0,
    ensures
        y >= 0,
{
    if y < 0 {
        assert(civil::days_before_month(y, m) <= 400) by {
            reveal_with_fuel(civil::days_before_month, 13);
        }
        assert(civil::leaps_to(y - 1) <= 0) by {
            assert((y - 1) / 4 - (y - 1) / 100 <= 0);
            assert((y - 1) / 400 <= 0);
        }
        assert(civil::leaps_to(1969) == 477);
    }
}

/// A recording's header.
pub struct CaptureMeta {
    pub id: String,
    pub started_unix_ms: u64,
    pub duration_ms: u64,
    pub kind: String,
    pub width: u32,
    pub height: u32,
    pub fps: u32,
    pub codec: String,
    pub client: String,
    pub sample_count: u32,
    pub encoder_backend: String,
    pub gpu: String,
    /// The sample cap was hit; later samples were dropped and the start kept.
    pub truncated: bool,
}

/// What a header holds.
#[verifier::ext_equal]
pub struct MetaView {
    pub id: Seq<char>,
    pub started_unix_ms: u64,
    pub duration_ms: u64,
    pub seed: SeedView,
    pub sample_count: nat,
    pub truncated: bool,
}

/// What a session registers with.
#[verifier::ext_equal]
pub struct SeedView {
    pub kind: Seq<char>,
    pub width: u32,
    pub height: u32,
    pub fps: u32,
    pub codec: Seq<char>,
    pub client: Seq<char>,
    pub encoder_backend: Seq<char>,
    pub gpu: Seq<char>,
}

impl SeedView {
    /// Of a capture that no session registered with.
    pub open spec fn blank() -> SeedView {
        SeedView {
            kind: Seq::empty(),
            width: 0,
            height: 0,
            fps: 0,
            codec: Seq::empty(),
            client: Seq::empty(),
            encoder_backend: Seq::empty(),
            gpu: Seq::empty(),
        }
    }
}

impl View for CaptureMeta {
    type V = MetaView;

    open spec fn view(&self) -> MetaView {
        MetaView {
            id: self.id@,
            started_unix_ms: self.started_unix_ms,
            duration_ms: self.duration_ms,
            seed: SeedView {
                kind: self.kind@,
                width: self.width,
                height: self.height,
                fps: self.fps,
                codec: self.codec@,
                client: self.client@,
                encoder_backend: self.encoder_backend@,
                gpu: self.gpu@,
            },
            sample_count: self.sample_count as nat,
            truncated: self.truncated,
        }
    }
}

/// Mode, codec and client of a session.
pub struct MetaSeed {
    pub kind: String,
    pub width: u32,
    pub height: u32,
    pub fps: u32,
    pub codec: String,
    pub client: String,
    pub encoder_backend: String,
    pub gpu: String,
}

impl View for MetaSeed {
    type V = SeedView;

    open spec fn view(&self) -> SeedView {
        SeedView {
            kind: self.kind@,
            width: self.width,
            height: self.height,
            fps: self.fps,
            codec: self.codec@,
            client: self.client@,
            encoder_backend: self.encoder_backend@,
            gpu: self.gpu@,
        }
    }
}

/// A sample with the time since the capture's start and the session it is of.
pub struct Stamped<S> {
    pub t_ms: u64,
    pub session_id: u32,
    pub body: S,
}

/// The capture in progress.
pub struct Live<S, L> {
    pub started_ms: u64,
    pub started_unix_ms: u64,
    /// Of the first session to register.
    pub meta: Option<MetaSeed>,
    pub samples: Vec<Stamped<S>>,
    pub link: Vec<L>,
    pub truncated: bool,
}

/// What a capture in progress holds.
#[verifier::ext_equal]
#[verifier::reject_recursive_types(S)]
#[verifier::reject_recursive_types(L)]
pub struct LiveView<S, L> {
    pub started_ms: u64,
    pub started_unix_ms: u64,
    pub meta: Option<SeedView>,
    pub samples: Seq<Stamped<S>>,
    pub link: Seq<L>,
    pub truncated: bool,
}

impl<S, L> View for Live<S, L> {
    type V = LiveView<S, L>;

    open spec fn view(&self) -> LiveView<S, L> {
        LiveView {
            started_ms: self.started_ms,
            started_unix_ms: self.started_unix_ms,
            meta: match self.meta {
                Some(m) => Some(m@),
                None => None,
            },
            samples: self.samples@,
            link: self.link@,
            truncated: self.truncated,
        }
    }
}

pub open spec fn since(then_ms: u64, now_ms: u64) -> u64 {
    if now_ms > then_ms {
        (now_ms - then_ms) as u64
    } else {
        0
    }
}

impl<S, L> LiveView<S, L> {
    /// Bounded, and marked when something was dropped.
    pub open spec fn wf(self) -> bool {
        &&& self.samples.len() <= MAX_SAMPLES
        &&& self.link.len() <= MAX_SAMPLES
        &&& self.truncated ==> self.samples.len() == MAX_SAMPLES
    }

    pub open spec fn begun(now_ms: u64, unix_ms: u64) -> LiveView<S, L> {
        LiveView {
            started_ms: now_ms,
            started_unix_ms: unix_ms,
            meta: None,
            samples: Seq::empty(),
            link: Seq::empty(),
            truncated: false,
        }
    }

    /// The capture with one more sample, or marked as truncated when it is full.
    pub open spec fn sampled(self, session_id: u32, body: S, now_ms: u64) -> LiveView<S, L> {
        if self.samples.len() >= MAX_SAMPLES {
            LiveView { truncated: true, ..self }
        } else {
            LiveView {
                samples: self.samples.push(
                    Stamped { t_ms: since(self.started_ms, now_ms), session_id, body },
                ),
                ..self
            }
        }
    }

    /// The header's seed.
    pub open spec fn seed(self) -> SeedView {
        match self.meta {
            Some(m) => m,
            None => SeedView::blank(),
        }
    }

    /// The header of the capture at `now_ms`.
    pub open spec fn is_header(self, m: MetaView, now_ms: u64) -> bool {
        &&& is_stem(
            m.id,
            self.started_unix_ms as nat / 1000,
            self.seed().width as nat,
            self.seed().height as nat,
        )
        &&& m.started_unix_ms == self.started_unix_ms
        &&& m.duration_ms == since(self.started_ms, now_ms)
        &&& m.seed == self.seed()
        &&& m.sample_count == self.samples.len()
        &&& m.truncated == self.truncated
    }
}

/// What the console is told of the capture in progress.
pub struct StatsStatus {
    pub armed: bool,
    pub sample_count: u32,
    pub started_unix_ms: u64,
    pub elapsed_ms: u64,
    pub kind: String,
}

/// `s` reports `live` at `now_ms`; an idle recorder reports zeros.
pub open spec fn is_status<S, L>(s: StatsStatus, live: Option<LiveView<S, L>>, now_ms: u64) -> bool {
    match live {
        Some(l) => {
            &&& s.armed
            &&& s.sample_count == l.samples.len()
            &&& s.started_unix_ms == l.started_unix_ms
            &&& s.elapsed_ms == since(l.started_ms, now_ms)
            &&& s.kind@ == l.seed().kind
        },
        None => !s.armed && s.sample_count == 0 && s.started_unix_ms == 0 && s.elapsed_ms == 0
            && s.kind@ == Seq::<char>::empty(),
    }
}

/// The recorder.
pub struct StatsRecorder<S, L> {
    pub armed: bool,
    pub live: Option<Live<S, L>>,
    pub next_sid: u32,
    /// Counts captures, so that a loop that outlives one registers again.
    pub generation: u64,
}

/// A finished capture.
pub struct Capture<S, L> {
    pub meta: CaptureMeta,
    pub samples: Vec<Stamped<S>>,
    pub link: Vec<L>,
}

fn clone_meta_seed(m: &Option<MetaSeed>) -> (r: MetaSeed)
    ensures
        r@ == match *m {
            Some(s) => s@,
            None => SeedView::blank(),
        },
{
    match m {
        Some(s) => MetaSeed {
            kind: s.kind.clone(),
            width: s.width,
            height: s.height,
            fps: s.fps,
            codec: s.codec.clone(),
            client: s.client.clone(),
            encoder_backend: s.encoder_backend.clone(),
            gpu: s.gpu.clone(),
        },
        None => {
            let r: MetaSeed = MetaSeed {
                kind: String::new(),
                width: 0,
                height: 0,
                fps: 0,
                codec: String::new(),
                client: String::new(),
                encoder_backend: String::new(),
                gpu: String::new(),
            };
            assert(r@ =~= SeedView::blank());
            r
        },
    }
}

fn meta_of<S, L>(live: &Live<S, L>, now_ms: u64) -> (m: CaptureMeta)
    requires
        live@.wf(),
    ensures
        live@.is_header(m@, now_ms),
{
    let seed: MetaSeed = clone_meta_seed(&live.meta);
    CaptureMeta {
        id: capture_id(live.started_unix_ms, seed.width, seed.height),
        started_unix_ms: live.started_unix_ms,
        duration_ms: now_ms.saturating_sub(live.started_ms),
        kind: seed.kind,
        width: seed.width,
        height: seed.height,
        fps: seed.fps,
        codec: seed.codec,
        client: seed.client,
        sample_count: live.samples.len() as u32,
        encoder_backend: seed.encoder_backend,
        gpu: seed.gpu,
        truncated: live.truncated,
    }
}

impl<S, L> StatsRecorder<S, L> {
    /// The capture in progress.
    pub open spec fn current(self) -> Option<LiveView<S, L>> {
        match self.live {
            Some(l) => Some(l@),
            None => None,
        }
    }

    /// Armed exactly while a capture is in progress.
    pub open spec fn wf(self) -> bool {
        &&& self.armed == self.live is Some
        &&& self.current() matches Some(l) ==> l.wf()
    }

    pub fn new() -> (r: StatsRecorder<S, L>)
        ensures
            r.wf(),
            r.current() is None,
            r.next_sid == 0,
            r.generation == 0,
    {
        StatsRecorder { armed: false, live: None, next_sid: 0, generation: 0 }
    }

    /// Which capture is live. A loop that sees it move registers again.
    pub fn generation(&self) -> (g: u64)
        ensures
            g == self.generation,
    {
        self.generation
    }

    /// Whether frames should be measured.
    pub fn is_armed(&self) -> (a: bool)
        requires
            self.wf(),
        ensures
            a == (self.current() is Some),
    {
        self.armed
    }

    /// Starts a capture, unless one is in progress: then it goes on as it is.
    pub fn start(&mut self, now_ms: u64, unix_ms: u64) -> (s: StatsStatus)
        requires
            old(self).wf(),
        ensures
            final(self).wf(),
            final(self).next_sid == old(self).next_sid,
            old(self).current() is Some ==> final(self).current() == old(self).current()
                && final(self).generation == old(self).generation,
            old(self).current() is None ==> final(self).current() == Some(
                LiveView::<S, L>::begun(now_ms, unix_ms),
            ) && final(self).generation == old(self).generation.wrapping_add(1),
            is_status(s, final(self).current(), now_ms),
    {
        if self.live.is_none() {
            let l: Live<S, L> = Live {
                started_ms: now_ms,
                started_unix_ms: unix_ms,
                meta: None,
                samples: Vec::new(),
                link: Vec::new(),
                truncated: false,
            };
            assert(l@ =~= LiveView::<S, L>::begun(now_ms, unix_ms));
            self.live = Some(l);
            self.generation = self.generation.wrapping_add(1);
            self.armed = true;
        }
        self.status(now_ms)
    }

    /// Registers a session and hands out its id. The first one of a capture seeds the header;
    /// later ones leave it alone.
    pub fn register_session(&mut self, seed: MetaSeed) -> (sid: u32)
        requires
            old(self).wf(),
        ensures
            final(self).wf(),
            sid == old(self).next_sid,
            final(self).next_sid == old(self).next_sid.wrapping_add(1),
            final(self).generation == old(self).generation,
            final(self).current() == match old(self).current() {
                Some(l) => Some(
                    if l.meta is None {
                        LiveView { meta: Some(seed@), ..l }
                    } else {
                        l
                    },
                ),
                None => None,
            },
    {
        let sid: u32 = self.next_sid;
        self.next_sid = self.next_sid.wrapping_add(1);
        match self.live.take() {
            Some(l) => {
                let mut l = l;
                if l.meta.is_none() {
                    l.meta = Some(seed);
                }
                self.live = Some(l);
            },
            None => {},
        }
        sid
    }

    /// Appends a sample, stamped with its session and the time since the start. A full capture
    /// drops it; an idle recorder does nothing.
    pub fn push_sample(&mut self, session_id: u32, body: S, now_ms: u64)
        requires
            old(self).wf(),
        ensures
            final(self).wf(),
            final(self).next_sid == old(self).next_sid,
            final(self).generation == old(self).generation,
            final(self).current() == match old(self).current() {
                Some(l) => Some(l.sampled(session_id, body, now_ms)),
                None => None,
            },
    {
        match self.live.take() {
            Some(l) => {
                let mut l = l;
                if l.samples.len() >= MAX_SAMPLES {
                    l.truncated = true;
                } else {
                    let t_ms: u64 = now_ms.saturating_sub(l.started_ms);
                    l.samples.push(Stamped { t_ms, session_id, body });
                }
                self.live = Some(l);
            },
            None => {},
        }
    }

    /// Appends a minute of link health, up to the same cap.
    pub fn push_link(&mut self, minute: L)
        requires
            old(self).wf(),
        ensures
            final(self).wf(),
            final(self).next_sid == old(self).next_sid,
            final(self).generation == old(self).generation,
            final(self).current() == match old(self).current() {
                Some(l) => Some(
                    if l.link.len() < MAX_SAMPLES {
                        LiveView { link: l.link.push(minute), ..l }
                    } else {
                        l
                    },
                ),
                None => None,
            },
    {
        match self.live.take() {
            Some(l) => {
                let mut l = l;
                if l.link.len() < MAX_SAMPLES {
                    l.link.push(minute);
                }
                self.live = Some(l);
            },
            None => {},
        }
    }

    /// Ends the capture and hands it over; nothing when idle.
    pub fn stop(&mut self, now_ms: u64) -> (c: Option<Capture<S, L>>)
        requires
            old(self).wf(),
        ensures
            final(self).wf(),
            final(self).current() is None,
            final(self).next_sid == old(self).next_sid,
            final(self).generation == old(self).generation,
            c is Some <==> old(self).current() is Some,
            c matches Some(cap) ==> {
                let l = old(self).current()->0;
                l.is_header(cap.meta@, now_ms) && cap.samples@ == l.samples && cap.link@ == l.link
            },
    {
        self.armed = false;
        match self.live.take() {
            Some(l) => {
                let meta: CaptureMeta = meta_of(&l, now_ms);
                Some(Capture { meta, samples: l.samples, link: l.link })
            },
            None => None,
        }
    }

    /// What the console is told.
    pub fn status(&self, now_ms: u64) -> (s: StatsStatus)
        requires
            self.wf(),
        ensures
            is_status(s, self.current(), now_ms),
    {
        match &self.live {
            Some(l) => StatsStatus {
                armed: true,
                sample_count: l.samples.len() as u32,
                started_unix_ms: l.started_unix_ms,
                elapsed_ms: now_ms.saturating_sub(l.started_ms),
                kind: match &l.meta {
                    Some(m) => m.kind.clone(),
                    None => String::new(),
                },
            },
            None => StatsStatus {
                armed: false,
                sample_count: 0,
                started_unix_ms: 0,
                elapsed_ms: 0,
                kind: String::new(),
            },
        }
    }

    /// The header the capture in progress would be saved with.
    pub fn live_meta(&self, now_ms: u64) -> (m: Option<CaptureMeta>)
        requires
            self.wf(),
        ensures
            m is Some <==> self.current() is Some,
            m matches Some(h) ==> self.current()->0.is_header(h@, now_ms),
    {
        match &self.live {
            Some(l) => Some(meta_of(l, now_ms)),
            None => None,
        }
    }
}

/// The file of a recording; nothing for an id that could leave the directory.
pub fn recording_file(id: &str) -> (f: Option<String>)
    ensures
        f is Some <==> is_valid_id(id@),
        f matches Some(n) ==> n@ == id@ + ".json"@,
{
    if valid_id(id) {
        Some(id.to_owned().concat(".json"))
    } else {
        None
    }
}

/// Later starts first.
pub open spec fn newest_first(s: Seq<CaptureMeta>) -> bool {
    forall|i: int, j: int|
        0 <= i <= j < s.len() ==> (#[trigger] s[i]).started_unix_ms >= (#[trigger] s[j]).started_unix_ms
}

/// The recordings with `m` put behind every one that started no earlier.
pub open spec fn placed(s: Seq<CaptureMeta>, m: CaptureMeta) -> Seq<CaptureMeta>
    decreases s.len(),
{
    if s.len() == 0 || s.last().started_unix_ms >= m.started_unix_ms {
        s.push(m)
    } else {
        placed(s.drop_last(), m).push(s.last())
    }
}

/// Recordings in the order read, sorted: newest first, and equal starts in the order read.
pub open spec fn sorted(s: Seq<CaptureMeta>) -> Seq<CaptureMeta>
    decreases s.len(),
{
    if s.len() == 0 {
        s
    } else {
        placed(sorted(s.drop_last()), s.last())
    }
}

proof fn lemma_placed(s: Seq<CaptureMeta>, m: CaptureMeta, at: int)
    requires
        0 <= at <= s.len(),
        forall|i: int| at <= i < s.len() ==> (#[trigger] s[i]).started_unix_ms < m.started_unix_ms,
        at > 0 ==> s[at - 1].started_unix_ms >= m.started_unix_ms,
    ensures
        placed(s, m) == s.insert(at, m),
    decreases s.len(),
{
    if at == s.len() {
        assert(s.insert(at, m) =~= s.push(m));
    } else {
        let d = s.drop_last();
        assert(s[s.len() - 1] == s.last());
        assert forall|i: int| at <= i < d.len() implies (#[trigger] d[i]).started_unix_ms
            < m.started_unix_ms by {
            assert(d[i] == s[i]);
        }
        lemma_placed(d, m, at);
        assert(d.insert(at, m).push(s.last()) =~= s.insert(at, m));
    }
}

/// Sorts recordings newest first.
pub fn list(found: Vec<CaptureMeta>) -> (out: Vec<CaptureMeta>)
    ensures
        out@ == sorted(found@),
{
    let ghost all = found@;
    let mut found: Vec<CaptureMeta> = found;
    let n: usize = found.len();
    let mut rev: Vec<CaptureMeta> = Vec::new();
    let mut k: usize = n;
    assert(all.take(n as int) =~= all);
    assert(rev@ =~= all.skip(n as int).reverse());
    while k > 0
        invariant
            k <= n,
            n == all.len(),
            found@ == all.take(k as int),
            rev@ == all.skip(k as int).reverse(),
        decreases k,
    {
        let ghost was = found@;
        let ghost before = rev@;
        match found.pop() {
            Some(m) => {
                rev.push(m);
                proof {
                    assert(m == all[k - 1]);
                    assert(found@ =~= all.take(k - 1));
                    assert(rev@ =~= all.skip(k - 1).reverse());
                }
            },
            None => {},
        }
        k = k - 1;
    }
    assert(all.skip(0) =~= all);
    let mut out: Vec<CaptureMeta> = Vec::new();
    let mut i: usize = 0;
    assert(all.take(0) =~= Seq::<CaptureMeta>::empty());
    assert(rev@ =~= all.skip(0).reverse());
    while i < n
        invariant
            i <= n,
            n == all.len(),
            rev@ == all.skip(i as int).reverse(),
            out@ == sorted(all.take(i as int)),
            out@.len() == i,
        decreases n - i,
    {
        match rev.pop() {
            Some(m) => {
                proof {
                    assert(m == all[i as int]);
                    assert(rev@ =~= all.skip(i + 1).reverse());
                    assert(all.take(i + 1).drop_last() =~= all.take(i as int));
                    assert(all.take(i + 1).last() == m);
                }
                let ghost sofar = out@;
                let mut at: usize = out.len();
                while at > 0 && out[at - 1].started_unix_ms < m.started_unix_ms
                    invariant
                        at <= out@.len(),
                        out@ == sofar,
                        forall|j: int|
                            at <= j < out@.len() ==> (#[trigger] out@[j]).started_unix_ms
                                < m.started_unix_ms,
                    decreases at,
                {
                    at = at - 1;
                }
                proof {
                    lemma_placed(sofar, m, at as int);
                }
                out.insert(at, m);
            },
            None => {},
        }
        i = i + 1;
    }
    assert(all.take(n as int) =~= all);
    out
}

/// Sorting puts the newest first and keeps every recording.
pub proof fn sorting_keeps_every_recording(s: Seq<CaptureMeta>)
    ensures
        newest_first(sorted(s)),
        sorted(s).to_multiset() == s.to_multiset(),
    decreases s.len(),
{
    if s.len() > 0 {
        let d = s.drop_last();
        sorting_keeps_every_recording(d);
        lemma_placing(sorted(d), s.last());
        assert(s =~= d.push(s.last()));
        vstd::seq_lib::lemma_multiset_commutative(d, seq![s.last()]);
        d.to_multiset_ensures();
        sorted(d).to_multiset_ensures();
    }
}

proof fn lemma_placing(s: Seq<CaptureMeta>, m: CaptureMeta)
    requires
        newest_first(s),
    ensures
        newest_first(placed(s, m)),
        placed(s, m).to_multiset() =~= s.to_multiset().insert(m),
        forall|i: int|
            0 <= i < placed(s, m).len() ==> (#[trigger] placed(s, m)[i]).started_unix_ms
                >= m.started_unix_ms || (s.len() > 0 && placed(s, m)[i].started_unix_ms
                >= s.last().started_unix_ms),
    decreases s.len(),
{
    s.to_multiset_ensures();
    if s.len() == 0 || s.last().started_unix_ms >= m.started_unix_ms {
        let p = s.push(m);
        assert forall|i: int, j: int| 0 <= i <= j < p.len() implies (
        #[trigger] p[i]).started_unix_ms >= (#[trigger] p[j]).started_unix_ms by {
            if i < s.len() {
                assert(s[i].started_unix_ms >= s[s.len() - 1].started_unix_ms);
            }
        }
    } else {
        let d = s.drop_last();
        lemma_placing(d, m);
        let q = placed(d, m);
        q.to_multiset_ensures();
        d.to_multiset_ensures();
        assert(s =~= d.push(s.last()));
        let p = q.push(s.last());
        assert forall|i: int, j: int| 0 <= i <= j < p.len() implies (
        #[trigger] p[i]).started_unix_ms >= (#[trigger] p[j]).started_unix_ms by {
            if i < q.len() && j == q.len() {
                if q[i].started_unix_ms < m.started_unix_ms {
                    assert(d.last().started_unix_ms >= s.last().started_unix_ms) by {
                        assert(s[s.len() - 2].started_unix_ms >= s[s.len() - 1].started_unix_ms);
                    }
                }
            }
        }
        assert forall|i: int| 0 <= i < p.len() implies (#[trigger] p[i]).started_unix_ms
            >= m.started_unix_ms || p[i].started_unix_ms >= s.last().started_unix_ms by {
            if i < q.len() {
                assert(q[i].started_unix_ms >= m.started_unix_ms || (d.len() > 0
                    && q[i].started_unix_ms >= d.last().started_unix_ms));
                if d.len() > 0 {
                    assert(s[s.len() - 2].started_unix_ms >= s[s.len() - 1].started_unix_ms);
                }
            }
        }
    }
}

proof fn lemma_decimal_is_id(n: nat)
    ensures
        text::decimal(n).len() > 0,
        forall|i: int| 0 <= i < text::decimal(n).len() ==> id_char(#[trigger] text::decimal(n)[i]),
    decreases n,
{
    assert(text::is_digit(text::digit_char(n % 10)));
    if n >= 10 {
        lemma_decimal_is_id(n / 10);
    } else {
        assert(n % 10 == n);
    }
}

pub open spec fn all_id_chars(s: Seq<char>) -> bool {
    forall|i: int| 0 <= i < s.len() ==> id_char(#[trigger] s[i])
}

proof fn lemma_padded_is_id(n: nat, width: nat)
    ensures
        padded(n, width).len() >= width,
        all_id_chars(padded(n, width)),
{
    lemma_decimal_is_id(n);
}

/// Every id the recorder gives is one it takes back: a saved recording can be loaded and deleted.
pub proof fn a_given_id_is_valid(stem: Seq<char>, secs: nat, w: nat, h: nat)
    requires
        is_stem(stem, secs, w, h),
    ensures
        is_valid_id(stem),
{
    let (y, m, d) = choose|y: nat, m: nat, d: nat|
        #![trigger civil::day_number(y as int, m as int, d as int)]
        {
            &&& civil::is_date(y as int, m as int, d as int)
            &&& civil::day_number(y as int, m as int, d as int) == secs / 86_400
            &&& stem == id_text(y, m, d, secs % 86_400, w, h)
        };
    let tod = secs % 86_400;
    reveal_strlit("-");
    reveal_strlit("T");
    reveal_strlit("Z_");
    reveal_strlit("x");
    reveal_strlit(".");
    reveal_strlit("..");
    lemma_padded_is_id(y, 4);
    lemma_padded_is_id(m, 2);
    lemma_padded_is_id(d, 2);
    lemma_padded_is_id(tod / 3600, 2);
    lemma_padded_is_id(tod % 3600 / 60, 2);
    lemma_padded_is_id(tod % 60, 2);
    lemma_decimal_is_id(w);
    lemma_decimal_is_id(h);
    let t1 = padded(y, 4) + "-"@;
    let t2 = t1 + padded(m, 2) + "-"@;
    let t3 = t2 + padded(d, 2) + "T"@;
    let t4 = t3 + padded(tod / 3600, 2) + "-"@;
    let t5 = t4 + padded(tod % 3600 / 60, 2) + "-"@;
    let t6 = t5 + padded(tod % 60, 2) + "Z_"@;
    let t7 = t6 + text::decimal(w) + "x"@;
    assert(all_id_chars(t1));
    assert(all_id_chars(t2));
    assert(all_id_chars(t3));
    assert(all_id_chars(t4));
    assert(all_id_chars(t5));
    assert(all_id_chars(t6));
    assert(all_id_chars(t7));
    assert(all_id_chars(t7 + text::decimal(h)));
    assert(stem == t7 + text::decimal(h));
    assert(stem.len() > 2);
}

/// An id is taken exactly where it is made of letters, digits, dots, underscores and dashes and
/// is neither of the two names of directories; a file is given for those ids and no others.
pub proof fn an_id_stays_in_its_directory(id: &str, ok: bool, f: Option<String>)
    requires
        call_ensures(valid_id, (id,), ok),
        call_ensures(recording_file, (id,), f),
    ensures
        ok ==> !id@.contains('/') && !id@.contains('\\') && !id@.contains('\0') && !id@.contains(
            ' ',
        ) && !id@.contains(':'),
        id@ == seq!['.'] || id@ == seq!['.', '.'] || id@.len() == 0 ==> !ok,
        f is Some <==> ok,
        f matches Some(n) ==> n@ == id@ + ".json"@,
        id@.len() > 2 && (forall|i: int|
            0 <= i < id@.len() ==> ('A' <= #[trigger] id@[i] <= 'Z' || 'a' <= id@[i] <= 'z' || '0'
                <= id@[i] <= '9' || id@[i] == '.' || id@[i] == '_' || id@[i] == '-')) ==> ok,
{
    reveal_strlit(".");
    reveal_strlit("..");
    assert("."@ =~= seq!['.']);
    assert(".."@ =~= seq!['.', '.']);
    if ok {
        assert forall|c: char| #[trigger] id@.contains(c) implies id_char(c) by {
            let i = choose|i: int| 0 <= i < id@.len() && id@[i] == c;
            assert(id_char(id@[i]));
        }
        assert(!id_char('/') && !id_char('\\') && !id_char('\0') && !id_char(' ') && !id_char(':'));
    }
    if id@.len() > 2 && (forall|i: int|
        0 <= i < id@.len() ==> ('A' <= #[trigger] id@[i] <= 'Z' || 'a' <= id@[i] <= 'z' || '0'
            <= id@[i] <= '9' || id@[i] == '.' || id@[i] == '_' || id@[i] == '-')) {
        assert forall|i: int| 0 <= i < id@.len() implies id_char(#[trigger] id@[i]) by {}
    }
}

/// The id of a capture begins with the year of its start, is the same for every start within one
/// second, ends with the resolution, and is an id that is taken back.
pub proof fn an_id_tells_start_and_resolution(
    a: u64,
    b: u64,
    w: u32,
    h: u32,
    x: String,
    y: String,
    wide: String,
    high: String,
    id: &str,
    ok: bool,
)
    requires
        call_ensures(capture_id, (a, w, h), x),
        call_ensures(capture_id, (b, w, h), y),
        call_ensures(text::decimal_u64, (w as u64,), wide),
        call_ensures(text::decimal_u64, (h as u64,), high),
        id@ == x@,
        call_ensures(valid_id, (id,), ok),
    ensures
        a / 1000 == b / 1000 ==> x@ == y@,
        text::ends(x@, seq!['Z', '_'] + wide@ + seq!['x'] + high@),
        ok,
{
    let secs = a as nat / 1000;
    if a / 1000 == b / 1000 {
        a_start_has_one_id(x@, y@, secs, w as nat, h as nat);
    }
    a_given_id_is_valid(x@, secs, w as nat, h as nat);
    let (yy, m, d) = choose|yy: nat, m: nat, d: nat|
        #![trigger civil::day_number(yy as int, m as int, d as int)]
        {
            &&& civil::is_date(yy as int, m as int, d as int)
            &&& civil::day_number(yy as int, m as int, d as int) == secs / 86_400
            &&& x@ == id_text(yy, m, d, secs % 86_400, w as nat, h as nat)
        };
    let tod = secs % 86_400;
    let head = padded(yy, 4) + "-"@ + padded(m, 2) + "-"@ + padded(d, 2) + "T"@ + padded(
        tod / 3600,
        2,
    ) + "-"@ + padded(tod % 3600 / 60, 2) + "-"@ + padded(tod % 60, 2);
    let tail = seq!['Z', '_'] + wide@ + seq!['x'] + high@;
    reveal_strlit("Z_");
    reveal_strlit("x");
    assert("Z_"@ =~= seq!['Z', '_']);
    assert("x"@ =~= seq!['x']);
    assert(x@ =~= head + tail);
    assert(x@.skip(x@.len() - tail.len()) =~= tail);
}

/// The id tells the day and the second of the start: for a start of `days` whole days, hours,
/// minutes and seconds, it is the date of those days and the time of day, each in two digits.
pub proof fn an_id_tells_the_time_of_day(
    ms: u64,
    w: u32,
    h: u32,
    id: String,
    days: int,
    hour: int,
    minute: int,
    second: int,
)
    requires
        call_ensures(capture_id, (ms, w, h), id),
        ms / 1000 == days * 86_400 + hour * 3_600 + minute * 60 + second,
        0 <= hour < 24,
        0 <= minute < 60,
        0 <= second < 60,
        0 <= days,
    ensures
        exists|y: nat, m: nat, d: nat|
            #![trigger civil::day_number(y as int, m as int, d as int)]
            {
                &&& civil::is_date(y as int, m as int, d as int)
                &&& civil::day_number(y as int, m as int, d as int) == days
                &&& text::begins(
                    id@,
                    padded(y, 4) + seq!['-'] + padded(m, 2) + seq!['-'] + padded(d, 2) + seq!['T']
                        + padded(hour as nat, 2) + seq!['-'] + padded(minute as nat, 2) + seq!['-']
                        + padded(second as nat, 2) + seq!['Z'],
                )
            },
{
    let secs = ms as nat / 1000;
    assert(secs == days * 86_400 + (hour * 3_600 + minute * 60 + second));
    let (y, m, d) = choose|y: nat, m: nat, d: nat|
        #![trigger civil::day_number(y as int, m as int, d as int)]
        {
            &&& civil::is_date(y as int, m as int, d as int)
            &&& civil::day_number(y as int, m as int, d as int) == secs / 86_400
            &&& id@ == id_text(y, m, d, secs % 86_400, w as nat, h as nat)
        };
    let tod = secs % 86_400;
    assert(secs / 86_400 == days && tod == hour * 3_600 + minute * 60 + second);
    assert(tod / 3600 == hour && tod % 3600 / 60 == minute && tod % 60 == second);
    reveal_strlit("-");
    reveal_strlit("T");
    reveal_strlit("Z_");
    assert("-"@ =~= seq!['-']);
    assert("T"@ =~= seq!['T']);
    assert("Z_"@ =~= seq!['Z', '_']);
    let head = padded(y, 4) + seq!['-'] + padded(m, 2) + seq!['-'] + padded(d, 2) + seq!['T']
        + padded(hour as nat, 2) + seq!['-'] + padded(minute as nat, 2) + seq!['-'] + padded(
        second as nat,
        2,
    ) + seq!['Z'];
    let rest = seq!['_'] + text::decimal(w as nat) + "x"@ + text::decimal(h as nat);
    assert(id@ =~= head + rest);
    assert(id@.take(head.len() as int) =~= head);
    lemma_two_digits(hour as nat);
}

proof fn lemma_two_digits(n: nat)
    ensures
        n < 10 ==> padded(n, 2) == seq!['0', text::digit_char(n)],
        10 <= n < 100 ==> padded(n, 2) == seq![text::digit_char(n / 10), text::digit_char(n % 10)],
{
    reveal_with_fuel(text::decimal, 3);
    if n < 10 {
        assert(padded(n, 2) =~= seq!['0', text::digit_char(n)]);
    } else if n < 100 {
        assert(n / 10 < 10);
        assert(padded(n, 2) =~= seq![text::digit_char(n / 10), text::digit_char(n % 10)]);
    }
}

/// One capture at a time: a second start changes nothing and tells of the one in progress, and a
/// first one begins empty and counts as a new capture.
pub proof fn one_capture_at_a_time<S, L>(
    r: &mut StatsRecorder<S, L>,
    now_ms: u64,
    unix_ms: u64,
    s: StatsStatus,
)
    requires
        call_ensures(StatsRecorder::<S, L>::start, (r, now_ms, unix_ms), s),
        old(r).wf(),
    ensures
        final(r).live is Some && final(r).armed && s.armed,
        old(r).live matches Some(l) ==> final(r).live->0@ == l@ && final(r).generation == old(r).generation && s.sample_count == l.samples@.len() && s.started_unix_ms
            == l.started_unix_ms,
        old(r).live is None ==> {
            &&& final(r).live->0.samples@.len() == 0 && final(r).live->0.link@.len() == 0
            &&& final(r).live->0.meta is None && !final(r).live->0.truncated
            &&& final(r).live->0.started_ms == now_ms
            &&& final(r).live->0.started_unix_ms == unix_ms
            &&& s.sample_count == 0 && s.elapsed_ms == 0 && s.started_unix_ms == unix_ms
            &&& final(r).generation != old(r).generation
        },
        final(r).next_sid == old(r).next_sid,
{
    let f = final(r).current()->0;
    assert(final(r).current() is Some);
    if old(r).live is Some {
        assert(old(r).current() is Some);
    } else {
        assert(f.samples == Seq::<Stamped<S>>::empty());
    }
}

/// The first session of a capture gives its header, later ones leave it, and no two in a row get
/// one id.
pub proof fn the_first_session_gives_the_header<S, L>(
    r: &mut StatsRecorder<S, L>,
    a: MetaSeed,
    x: u32,
    t: &mut StatsRecorder<S, L>,
    b: MetaSeed,
    y: u32,
)
    requires
        call_ensures(StatsRecorder::<S, L>::register_session, (r, a), x),
        *old(t) == *final(r),
        call_ensures(StatsRecorder::<S, L>::register_session, (t, b), y),
    ensures
        x != y,
        old(r).live is Some && old(r).live->0.meta is None ==> {
            let l = old(r).live->0;
            &&& final(t).live is Some && final(t).live->0.meta is Some
            &&& final(t).live->0.meta->0@ == a@
            &&& final(t).live->0.samples@ == l.samples@ && final(t).live->0.link@ == l.link@
            &&& final(t).live->0.started_ms == l.started_ms
            &&& final(t).live->0.started_unix_ms == l.started_unix_ms
        },
        old(r).live is Some && old(r).live->0.meta is Some ==> final(t).live is Some && final(t).live->0.meta is Some && final(t).live->0.meta->0@ == old(r).live->0.meta->0@,
        old(r).live is None ==> final(t).live is None,
{
    if old(r).live is Some {
        assert(old(r).current() is Some);
        assert(final(r).current() is Some);
        assert(final(t).current() is Some);
        let l = old(r).current()->0;
        assert(final(t).current()->0.samples == l.samples);
        assert(final(t).current()->0.link == l.link);
    }
}

/// A sample goes to the end with its session and the time since the start; the ones before stay.
/// The capture takes 5400 and then keeps its start and is marked; an idle recorder takes none.
pub proof fn a_capture_keeps_its_start<S, L>(
    r: &mut StatsRecorder<S, L>,
    sid: u32,
    body: S,
    now_ms: u64,
)
    requires
        call_ensures(StatsRecorder::<S, L>::push_sample, (r, sid, body, now_ms), ()),
    ensures
        old(r).live is None ==> final(r).live is None,
        old(r).live matches Some(l) ==> {
            let f = final(r).live->0;
            &&& final(r).live is Some
            &&& l.samples@.len() < 5400 ==> f.samples@.len() == l.samples@.len() + 1
                && f.samples@.drop_last() == l.samples@ && f.samples@.last().session_id == sid
                && f.samples@.last().body == body && f.truncated == l.truncated
            &&& l.samples@.len() < 5400 && now_ms >= l.started_ms ==> l.started_ms
                + f.samples@.last().t_ms == now_ms
            &&& l.samples@.len() < 5400 && now_ms < l.started_ms ==> f.samples@.last().t_ms == 0
            &&& l.samples@.len() >= 5400 ==> f.samples@ == l.samples@ && f.truncated
            &&& f.link@ == l.link@ && f.started_ms == l.started_ms && f.started_unix_ms
                == l.started_unix_ms
        },
        final(r).next_sid == old(r).next_sid && final(r).generation == old(r).generation,
{
    if old(r).live is Some {
        assert(old(r).current() is Some);
        assert(final(r).current() is Some);
        let l = old(r).current()->0;
        let f = final(r).current()->0;
        if l.samples.len() < 5400 {
            assert(f.samples.drop_last() =~= l.samples);
        }
    }
}

/// A minute of the link goes to the end, up to 5400 of them; samples are left alone.
pub proof fn a_minute_goes_to_the_end<S, L>(r: &mut StatsRecorder<S, L>, minute: L)
    requires
        call_ensures(StatsRecorder::<S, L>::push_link, (r, minute), ()),
    ensures
        old(r).live is None ==> final(r).live is None,
        old(r).live matches Some(l) ==> {
            let f = final(r).live->0;
            &&& final(r).live is Some
            &&& l.link@.len() < 5400 ==> f.link@ == l.link@ + seq![minute]
            &&& l.link@.len() >= 5400 ==> f.link@ == l.link@
            &&& f.samples@ == l.samples@ && f.truncated == l.truncated
        },
{
    if old(r).live is Some {
        assert(old(r).current() is Some);
        assert(final(r).current() is Some);
        let l = old(r).current()->0;
        let f = final(r).current()->0;
        if l.link.len() < 5400 {
            assert(f.link =~= l.link + seq![minute]);
        }
    }
}

/// What is stopped is handed over as it was kept, and the recorder is idle then; an idle one has
/// nothing to hand over.
pub proof fn a_stop_hands_over_what_was_kept<S, L>(
    r: &mut StatsRecorder<S, L>,
    now_ms: u64,
    c: Option<Capture<S, L>>,
)
    requires
        call_ensures(StatsRecorder::<S, L>::stop, (r, now_ms), c),
        old(r).wf(),
    ensures
        final(r).live is None && !final(r).armed,
        c is Some <==> old(r).live is Some,
        c matches Some(cap) ==> {
            let l = old(r).live->0;
            &&& cap.samples@ == l.samples@ && cap.link@ == l.link@
            &&& cap.meta.sample_count == l.samples@.len()
            &&& cap.meta.truncated == l.truncated
            &&& cap.meta.started_unix_ms == l.started_unix_ms
            &&& now_ms >= l.started_ms ==> l.started_ms + cap.meta.duration_ms == now_ms
            &&& l.meta matches Some(m) ==> cap.meta.kind@ == m.kind@ && cap.meta.width == m.width
                && cap.meta.height == m.height && cap.meta.fps == m.fps && cap.meta.codec@
                == m.codec@ && cap.meta.client@ == m.client@ && cap.meta.encoder_backend@
                == m.encoder_backend@ && cap.meta.gpu@ == m.gpu@
            &&& l.meta is None ==> cap.meta.width == 0 && cap.meta.height == 0 && cap.meta.fps == 0
                && cap.meta.kind@.len() == 0 && cap.meta.codec@.len() == 0
        },
{
    if let Some(cap) = c {
        assert(old(r).current() is Some);
        let l = old(r).current()->0;
        assert(cap.meta@.seed == l.seed());
        assert(cap.meta@.sample_count == l.samples.len());
    }
}

/// The header in progress is the one that a stop at the same moment gives.
pub proof fn the_header_is_the_one_of_a_stop<S, L>(
    r: &mut StatsRecorder<S, L>,
    now_ms: u64,
    m: Option<CaptureMeta>,
    c: Option<Capture<S, L>>,
)
    requires
        call_ensures(StatsRecorder::<S, L>::live_meta, (old(r), now_ms), m),
        call_ensures(StatsRecorder::<S, L>::stop, (r, now_ms), c),
    ensures
        m is Some <==> c is Some,
        m matches Some(h) ==> c->0.meta@ == h@,
{
    if let Some(h) = m {
        let l = old(r).current()->0;
        a_start_has_one_id(
            h.id@,
            c->0.meta.id@,
            l.started_unix_ms as nat / 1000,
            l.seed().width as nat,
            l.seed().height as nat,
        );
        assert(c->0.meta@ =~= h@);
    }
}

/// What is told is what is kept: armed exactly with a capture, its count, start, age and kind.
pub proof fn a_status_tells_what_is_kept<S, L>(
    r: &StatsRecorder<S, L>,
    now_ms: u64,
    s: StatsStatus,
    armed: bool,
)
    requires
        call_ensures(StatsRecorder::<S, L>::status, (r, now_ms), s),
        call_ensures(StatsRecorder::<S, L>::is_armed, (r,), armed),
        r.wf(),
    ensures
        s.armed == armed,
        armed <==> r.live is Some,
        r.live matches Some(l) ==> s.sample_count == l.samples@.len() && s.started_unix_ms
            == l.started_unix_ms && (now_ms >= l.started_ms ==> l.started_ms + s.elapsed_ms
            == now_ms) && (l.meta matches Some(m) ==> s.kind@ == m.kind@),
        r.live is None ==> s.sample_count == 0 && s.elapsed_ms == 0 && s.started_unix_ms == 0
            && s.kind@.len() == 0,
{
    if r.live is Some {
        assert(r.current() is Some);
        assert(r.current()->0.samples == r.live->0.samples@);
    }
}

/// The list holds what was found, each as often, newest first; of two with one start the one
/// found first stands first.
pub proof fn the_list_is_what_was_found(found: Vec<CaptureMeta>, out: Vec<CaptureMeta>)
    requires
        call_ensures(list, (found,), out),
    ensures
        out@.len() == found@.len(),
        out@.to_multiset() == found@.to_multiset(),
        forall|i: int, j: int|
            0 <= i < j < out@.len() ==> (#[trigger] out@[i]).started_unix_ms >= (
            #[trigger] out@[j]).started_unix_ms,
        (forall|i: int, j: int|
            0 <= i < j < found@.len() ==> (#[trigger] found@[i]).started_unix_ms >= (
            #[trigger] found@[j]).started_unix_ms) ==> out@ == found@,
{
    sorting_keeps_every_recording(found@);
    out@.to_multiset_ensures();
    found@.to_multiset_ensures();
    if newest_first(found@) {
        lemma_sorted_stays(found@);
    }
    if forall|i: int, j: int|
        0 <= i < j < found@.len() ==> (#[trigger] found@[i]).started_unix_ms >= (
        #[trigger] found@[j]).started_unix_ms {
        assert(newest_first(found@));
    }
}

proof fn lemma_sorted_stays(s: Seq<CaptureMeta>)
    requires
        newest_first(s),
    ensures
        sorted(s) == s,
    decreases s.len(),
{
    if s.len() > 0 {
        let d = s.drop_last();
        assert forall|i: int, j: int| 0 <= i <= j < d.len() implies (
        #[trigger] d[i]).started_unix_ms >= (#[trigger] d[j]).started_unix_ms by {
            assert(s[i].started_unix_ms >= s[j].started_unix_ms);
        }
        lemma_sorted_stays(d);
        if d.len() > 0 {
            assert(s[s.len() - 2].started_unix_ms >= s[s.len() - 1].started_unix_ms);
        }
        assert(d.push(s.last()) =~= s);
    }
}

/// A new recorder is idle, and a capture changes the number that a loop compares.
pub proof fn a_new_recorder_is_idle<S, L>(r: StatsRecorder<S, L>, a: &StatsRecorder<S, L>, g: u64)
    requires
        call_ensures(StatsRecorder::<S, L>::new, (), r),
        call_ensures(StatsRecorder::<S, L>::generation, (a,), g),
    ensures
        r.live is None && !r.armed,
        g == a.generation,
{
}

} // verus!
