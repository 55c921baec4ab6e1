//! Host update check and apply: what a refresh does to the cache, when one is kicked, what an
//! apply is refused for, and the serial floor that makes a replayed older manifest an error.
//!
//! Fetching, verifying signatures, files and jobs stay with the caller. An apply takes nothing
//! from the request but `force`; the rest comes from the verified cache.

use crate::text;
use vstd::prelude::*;
use vstd::string::StringExecFns;

verus! {

/// A check older than this is refreshed when the status is read.
pub const AUTO_REFRESH_AFTER_NS: u64 = 21_600_000_000_000;

/// Forced checks, at most one in this time.
pub const FORCE_MIN_INTERVAL_NS: u64 = 30_000_000_000;

/// A manifest published longer ago than this hints at a frozen feed.
pub const STALE_AFTER_SECS: u64 = 3_888_000;

/// A setting that says no.
pub open spec fn says_no(v: Option<Seq<char>>) -> bool {
    v matches Some(s) && (s == "0"@ || s == "false"@ || s == "off"@)
}

/// Whether a knob switches its feature off.
pub fn knob_disables(v: Option<&str>) -> (r: bool)
    ensures
        r == says_no(text::opt_view(v)),
{
    match v {
        Some(s) => text::same(s, "0") || text::same(s, "false") || text::same(s, "off"),
        None => false,
    }
}

/// How the host was installed.
#[derive(Clone, Copy, Debug, PartialEq, Eq, Structural)]
pub enum InstallKind {
    WindowsInstaller,
    Apt,
    Dnf,
    Sysext,
    RpmOstree,
    Pacman,
    SteamosSource,
    Other,
}

/// What the host runs on.
#[derive(Clone, Copy, Debug, PartialEq, Eq, Structural)]
pub enum Platform {
    Linux,
    Windows,
    Other,
}

/// What decides whether the console can apply an update.
#[derive(Clone, Copy, Debug, PartialEq, Eq, Structural)]
pub struct ApplyEnv {
    pub platform: Platform,
    pub kind: InstallKind,
    /// The operator switched apply off.
    pub disabled: bool,
    /// Omarchy owns the package manager and its snapshots.
    pub omarchy: bool,
    pub helper_installed: bool,
    pub opted_in: bool,
    pub pacman_opted_in: bool,
}

/// How far the console can apply an update.
#[derive(Clone, Copy, Debug, PartialEq, Eq, Structural)]
pub enum ApplySupport {
    /// One click.
    Full,
    /// Apply, then reboot.
    Staged,
    /// Show the command.
    Notify,
}

impl ApplySupport {
    pub open spec fn name(self) -> Seq<char> {
        match self {
            ApplySupport::Full => "full"@,
            ApplySupport::Staged => "staged"@,
            ApplySupport::Notify => "notify"@,
        }
    }

    pub fn as_str(&self) -> (s: &'static str)
        ensures
            s@ == self.name(),
    {
        match self {
            ApplySupport::Full => "full",
            ApplySupport::Staged => "staged",
            ApplySupport::Notify => "notify",
        }
    }
}

impl ApplyEnv {
    /// Linux with the packaged root helper and the operator in its group.
    pub open spec fn linux_ready(self) -> bool {
        self.platform == Platform::Linux && self.helper_installed && self.opted_in
    }

    pub open spec fn on_omarchy(self) -> bool {
        self.platform == Platform::Linux && self.omarchy
    }

    pub open spec fn support(self) -> ApplySupport {
        if self.disabled || self.on_omarchy() {
            ApplySupport::Notify
        } else {
            match self.kind {
                InstallKind::WindowsInstaller => ApplySupport::Full,
                InstallKind::Apt => self.full_if(self.linux_ready()),
                InstallKind::Dnf => self.full_if(self.linux_ready()),
                InstallKind::Sysext => self.full_if(self.linux_ready()),
                InstallKind::RpmOstree => if self.linux_ready() {
                    ApplySupport::Staged
                } else {
                    ApplySupport::Notify
                },
                InstallKind::Pacman => self.full_if(self.linux_ready() && self.pacman_opted_in),
                InstallKind::SteamosSource => self.full_if(self.platform == Platform::Linux),
                InstallKind::Other => ApplySupport::Notify,
            }
        }
    }

    pub open spec fn full_if(self, cond: bool) -> ApplySupport {
        if cond {
            ApplySupport::Full
        } else {
            ApplySupport::Notify
        }
    }

    /// A leg the package manager or the source tree applies.
    pub open spec fn linux_leg(self) -> bool {
        self.kind != InstallKind::WindowsInstaller && self.kind != InstallKind::Other
    }
}

/// How far the console can apply an update.
pub fn apply_support(e: &ApplyEnv) -> (s: ApplySupport)
    ensures
        s == e.support(),
{
    let linux: bool = e.platform == Platform::Linux;
    if e.disabled || (linux && e.omarchy) {
        return ApplySupport::Notify;
    }
    let ready: bool = linux && e.helper_installed && e.opted_in;
    match e.kind {
        InstallKind::WindowsInstaller => ApplySupport::Full,
        InstallKind::Apt | InstallKind::Dnf | InstallKind::Sysext => if ready {
            ApplySupport::Full
        } else {
            ApplySupport::Notify
        },
        InstallKind::RpmOstree => if ready {
            ApplySupport::Staged
        } else {
            ApplySupport::Notify
        },
        InstallKind::Pacman => if ready && e.pacman_opted_in {
            ApplySupport::Full
        } else {
            ApplySupport::Notify
        },
        InstallKind::SteamosSource => if linux {
            ApplySupport::Full
        } else {
            ApplySupport::Notify
        },
        InstallKind::Other => ApplySupport::Notify,
    }
}

/// Whether the status tells the operator to join the update group: the helper is there, a
/// one-click leg exists, and they are not in it.
pub fn opt_in_hint_due(e: &ApplyEnv) -> (due: bool)
    ensures
        due == (e.platform == Platform::Linux && !e.omarchy && e.linux_leg() && e.kind
            != InstallKind::SteamosSource && !e.disabled && e.helper_installed && !e.opted_in),
{
    let capable: bool = match e.kind {
        InstallKind::Apt => true,
        InstallKind::Dnf => true,
        InstallKind::Sysext => true,
        InstallKind::RpmOstree => true,
        InstallKind::Pacman => true,
        _ => false,
    };
    e.platform == Platform::Linux && !e.omarchy && capable && !e.disabled && e.helper_installed
        && !e.opted_in
}

/// Whether a source build is behind: only a counted commit says so. An unanswered fetch is not
/// "up to date".
pub fn source_newer(behind: Option<u64>) -> (newer: bool)
    ensures
        newer == (behind is Some && behind->0 > 0),
{
    match behind {
        Some(n) => n > 0,
        None => false,
    }
}

/// Why a feed gave no manifest.
pub enum FeedError {
    /// The channel has no document yet.
    NotPublished,
    Failed(String),
}

impl FeedError {
    pub open spec fn text(self) -> Seq<char> {
        match self {
            FeedError::NotPublished => "no release has been published on this channel yet"@,
            FeedError::Failed(why) => why@,
        }
    }

    pub fn message(&self) -> (s: String)
        ensures
            s@ == self.text(),
    {
        match self {
            FeedError::NotPublished => "no release has been published on this channel yet".to_owned(
            ),
            FeedError::Failed(why) => why.clone(),
        }
    }
}

/// The error to show, and whether nothing is published yet; never both. An empty channel is
/// benign only until a manifest has been seen on it.
pub fn classify_failure(e: &FeedError, had_manifest: bool) -> (r: (Option<String>, bool))
    ensures
        r.1 == (e is NotPublished && !had_manifest),
        text::opt_string(r.0) == if r.1 {
            None
        } else {
            Some(e.text())
        },
{
    let benign: bool = match e {
        FeedError::NotPublished => !had_manifest,
        FeedError::Failed(_) => false,
    };
    if benign {
        (None, true)
    } else {
        (Some(e.message()), false)
    }
}

/// The refusal of a replayed manifest.
pub open spec fn rollback_text(serial: u64, floor: u64) -> Seq<char> {
    "manifest serial "@ + text::decimal(serial as nat) + " is older than the last accepted "@
        + text::decimal(floor as nat) + " — refusing rollback"@
}

/// A manifest whose serial is below the floor is refused.
pub fn check_serial(serial: u64, floor: u64) -> (r: Result<(), FeedError>)
    ensures
        r is Err <==> serial < floor,
        r matches Err(e) ==> e is Failed && e.text() == rollback_text(serial, floor),
{
    if serial < floor {
        let s: String = "manifest serial ".to_owned().concat(
            text::decimal_u64(serial).as_str(),
        ).concat(" is older than the last accepted ").concat(
            text::decimal_u64(floor).as_str(),
        ).concat(" — refusing rollback");
        Err(FeedError::Failed(s))
    } else {
        Ok(())
    }
}

/// The highest accepted serial of one channel.
pub struct FloorEntry {
    pub channel: String,
    pub serial: u64,
}

/// The highest accepted serial per channel; no channel occurs twice.
pub struct FloorFile {
    pub entries: Vec<FloorEntry>,
}

impl FloorFile {
    pub open spec fn wf(self) -> bool {
        forall|i: int, j: int|
            0 <= i < j < self.entries@.len() ==> (#[trigger] self.entries@[i]).channel@ != (
            #[trigger] self.entries@[j]).channel@
    }

    /// The first entry of a channel at or after `k`; the length when there is none.
    pub open spec fn find(entries: Seq<FloorEntry>, channel: Seq<char>, k: int) -> int
        decreases entries.len() - k,
    {
        if k >= entries.len() {
            entries.len() as int
        } else if entries[k].channel@ == channel {
            k
        } else {
            Self::find(entries, channel, k + 1)
        }
    }

    /// The floor of a channel: 0 when it has none.
    pub open spec fn floor_of(self, channel: Seq<char>) -> u64 {
        let i = Self::find(self.entries@, channel, 0);
        if 0 <= i < self.entries@.len() {
            self.entries@[i].serial
        } else {
            0
        }
    }

    pub fn new() -> (f: FloorFile)
        ensures
            f.wf(),
            forall|c: Seq<char>| #[trigger] f.floor_of(c) == 0,
    {
        FloorFile { entries: Vec::new() }
    }

    fn position(&self, channel: &str) -> (r: usize)
        ensures
            r == Self::find(self.entries@, channel@, 0),
            r <= self.entries@.len(),
            r < self.entries@.len() ==> self.entries@[r as int].channel@ == channel@,
            r == self.entries@.len() ==> forall|k: int|
                0 <= k < self.entries@.len() ==> (#[trigger] self.entries@[k]).channel@
                    != channel@,
    {
        let mut i: usize = 0;
        while i < self.entries.len()
            invariant
                i <= self.entries@.len(),
                Self::find(self.entries@, channel@, 0) == Self::find(
                    self.entries@,
                    channel@,
                    i as int,
                ),
                forall|k: int| 0 <= k < i ==> (#[trigger] self.entries@[k]).channel@ != channel@,
            decreases self.entries@.len() - i,
        {
            if text::same(self.entries[i].channel.as_str(), channel) {
                return i;
            }
            i = i + 1;
        }
        i
    }

    /// The floor of a channel.
    pub fn load_floor(&self, channel: &str) -> (serial: u64)
        ensures
            serial == self.floor_of(channel@),
    {
        let i: usize = self.position(channel);
        if i < self.entries.len() {
            self.entries[i].serial
        } else {
            0
        }
    }

    /// Raises a channel's floor, never lowers it; `true` when it changed and has to be written.
    /// Other channels keep theirs.
    pub fn store_floor(&mut self, channel: &str, serial: u64) -> (raised: bool)
        requires
            old(self).wf(),
        ensures
            final(self).wf(),
            raised == (serial > old(self).floor_of(channel@)),
            final(self).floor_of(channel@) == if raised {
                serial
            } else {
                old(self).floor_of(channel@)
            },
            forall|c: Seq<char>|
                c != channel@ ==> #[trigger] final(self).floor_of(c) == old(self).floor_of(c),
    {
        let ghost before = self.entries@;
        let i: usize = self.position(channel);
        if i < self.entries.len() {
            if serial <= self.entries[i].serial {
                return false;
            }
            self.entries[i].serial = serial;
            proof {
                assert forall|c: Seq<char>, k: int| 0 <= k <= before.len() implies Self::find(
                    self.entries@,
                    c,
                    k,
                ) == #[trigger] Self::find(before, c, k) by {
                    lemma_find_same(before, self.entries@, c, k);
                }
                assert forall|c: Seq<char>| c != channel@ implies #[trigger] self.floor_of(c)
                    == old(self).floor_of(c) by {
                    assert(Self::find(self.entries@, c, 0) == Self::find(before, c, 0));
                    lemma_find_hits(before, c, 0);
                }
                assert(Self::find(self.entries@, channel@, 0) == Self::find(before, channel@, 0));
            }
            true
        } else {
            if serial == 0 {
                return false;
            }
            self.entries.push(FloorEntry { channel: channel.to_owned(), serial });
            proof {
                assert forall|c: Seq<char>| c != channel@ implies #[trigger] self.floor_of(c)
                    == old(self).floor_of(c) by {
                    lemma_find_push(before, self.entries@, c, 0);
                }
                lemma_find_push(before, self.entries@, channel@, 0);
            }
            true
        }
    }
}

impl FloorFile {
    /// Takes a verified manifest's serial: refused below the channel's floor, which then stays,
    /// and otherwise the new floor. `Ok(true)` when the file has to be written.
    pub fn accept(&mut self, channel: &str, serial: u64) -> (r: Result<bool, FeedError>)
        requires
            old(self).wf(),
        ensures
            final(self).wf(),
            r is Err <==> serial < old(self).floor_of(channel@),
            r matches Err(e) ==> e is Failed && e.text() == rollback_text(
                serial,
                old(self).floor_of(channel@),
            ) && final(self).floor_of(channel@) == old(self).floor_of(channel@),
            r matches Ok(raised) ==> raised == (serial > old(self).floor_of(channel@))
                && final(self).floor_of(channel@) == serial,
            forall|c: Seq<char>|
                c != channel@ ==> #[trigger] final(self).floor_of(c) == old(self).floor_of(c),
    {
        match check_serial(serial, self.load_floor(channel)) {
            Ok(()) => Ok(self.store_floor(channel, serial)),
            Err(e) => Err(e),
        }
    }
}

proof fn lemma_find_same(a: Seq<FloorEntry>, b: Seq<FloorEntry>, c: Seq<char>, k: int)
    requires
        a.len() == b.len(),
        forall|i: int| 0 <= i < a.len() ==> (#[trigger] a[i]).channel@ == b[i].channel@,
        0 <= k <= a.len(),
    ensures
        FloorFile::find(b, c, k) == FloorFile::find(a, c, k),
    decreases a.len() - k,
{
    if k < a.len() && a[k].channel@ != c {
        lemma_find_same(a, b, c, k + 1);
    }
}

proof fn lemma_find_hits(a: Seq<FloorEntry>, c: Seq<char>, k: int)
    requires
        0 <= k <= a.len(),
    ensures
        k <= FloorFile::find(a, c, k) <= a.len(),
        FloorFile::find(a, c, k) < a.len() ==> a[FloorFile::find(a, c, k)].channel@ == c,
    decreases a.len() - k,
{
    if k < a.len() && a[k].channel@ != c {
        lemma_find_hits(a, c, k + 1);
    }
}

proof fn lemma_find_push(a: Seq<FloorEntry>, b: Seq<FloorEntry>, c: Seq<char>, k: int)
    requires
        b.len() == a.len() + 1,
        forall|i: int| 0 <= i < a.len() ==> #[trigger] a[i] == b[i],
        0 <= k <= a.len(),
    ensures
        FloorFile::find(a, c, k) < a.len() ==> FloorFile::find(b, c, k) == FloorFile::find(a, c, k),
        FloorFile::find(a, c, k) >= a.len() ==> FloorFile::find(b, c, k) == if b.last().channel@
            == c {
            a.len() as int
        } else {
            b.len() as int
        },
    decreases a.len() - k,
{
    if k < a.len() {
        if a[k].channel@ != c {
            lemma_find_push(a, b, c, k + 1);
        }
    } else {
        assert(FloorFile::find(b, c, k + 1) == b.len());
    }
}

/// A manifest of the verified feed, as far as decisions read it.
pub struct Manifest {
    pub version: String,
    /// Publish time in seconds.
    pub serial: u64,
    pub has_windows_host: bool,
    pub has_windows_host_arm64: bool,
}

/// The cached answer of the last successful check.
pub struct Checked {
    pub manifest: Manifest,
    pub fetched_unix: u64,
}

/// What a cached answer holds.
#[verifier::ext_equal]
pub struct CheckedView {
    pub version: Seq<char>,
    pub serial: u64,
    pub has_windows_host: bool,
    pub has_windows_host_arm64: bool,
    pub fetched_unix: u64,
}

impl View for Checked {
    type V = CheckedView;

    open spec fn view(&self) -> CheckedView {
        CheckedView {
            version: self.manifest.version@,
            serial: self.manifest.serial,
            has_windows_host: self.manifest.has_windows_host,
            has_windows_host_arm64: self.manifest.has_windows_host_arm64,
            fetched_unix: self.fetched_unix,
        }
    }
}

/// Where a running apply stands.
#[derive(Clone, Copy, Debug, PartialEq, Eq, Structural)]
pub enum JobStage {
    Downloading,
    Applying,
    Restarting,
}

/// A running apply.
pub struct JobSnapshot {
    pub target_version: String,
    pub stage: JobStage,
    pub received_bytes: u64,
    pub total_bytes: Option<u64>,
    pub started_unix: u64,
}

#[verifier::ext_equal]
pub struct JobView {
    pub target_version: Seq<char>,
    pub stage: JobStage,
    pub received_bytes: u64,
    pub total_bytes: Option<u64>,
    pub started_unix: u64,
}

impl View for JobSnapshot {
    type V = JobView;

    open spec fn view(&self) -> JobView {
        JobView {
            target_version: self.target_version@,
            stage: self.stage,
            received_bytes: self.received_bytes,
            total_bytes: self.total_bytes,
            started_unix: self.started_unix,
        }
    }
}

/// The process-wide cache.
pub struct Runtime {
    pub checked: Option<Checked>,
    pub last_error: Option<String>,
    /// The feed is empty and never had a manifest; kept apart from an error.
    pub not_published: bool,
    pub refreshing: bool,
    pub last_forced_ns: Option<u64>,
    /// Any attempt, forced or not.
    pub last_attempt_ns: Option<u64>,
    /// The version already announced.
    pub announced: Option<String>,
    /// Commits behind upstream, for a source build; kept across a failed fetch.
    pub source_behind: Option<u64>,
    pub job: Option<JobSnapshot>,
}

#[verifier::ext_equal]
pub struct RuntimeView {
    pub checked: Option<CheckedView>,
    pub last_error: Option<Seq<char>>,
    pub not_published: bool,
    pub refreshing: bool,
    pub last_forced_ns: Option<u64>,
    pub last_attempt_ns: Option<u64>,
    pub announced: Option<Seq<char>>,
    pub source_behind: Option<u64>,
    pub job: Option<JobView>,
}

impl View for Runtime {
    type V = RuntimeView;

    open spec fn view(&self) -> RuntimeView {
        RuntimeView {
            checked: match self.checked {
                Some(c) => Some(c@),
                None => None,
            },
            last_error: text::opt_string(self.last_error),
            not_published: self.not_published,
            refreshing: self.refreshing,
            last_forced_ns: self.last_forced_ns,
            last_attempt_ns: self.last_attempt_ns,
            announced: text::opt_string(self.announced),
            source_behind: self.source_behind,
            job: match self.job {
                Some(j) => Some(j@),
                None => None,
            },
        }
    }
}

pub open spec fn elapsed(then_ns: u64, now_ns: u64) -> int {
    if now_ns > then_ns {
        now_ns - then_ns
    } else {
        0
    }
}

impl RuntimeView {
    /// Nothing was checked yet.
    pub open spec fn fresh() -> RuntimeView {
        RuntimeView {
            checked: None,
            last_error: None,
            not_published: false,
            refreshing: false,
            last_forced_ns: None,
            last_attempt_ns: None,
            announced: None,
            source_behind: None,
            job: None,
        }
    }

    /// An error and "nothing published yet" never stand together.
    pub open spec fn coherent(self) -> bool {
        !(self.not_published && self.last_error is Some)
    }

    /// A refresh is over: booked before its outcome.
    pub open spec fn attempted(self, now_ns: u64, behind: Option<u64>) -> RuntimeView {
        RuntimeView {
            last_attempt_ns: Some(now_ns),
            refreshing: false,
            source_behind: if behind is Some {
                behind
            } else {
                self.source_behind
            },
            ..self
        }
    }

    /// A newer build is out: a source build goes by its commit count, every other one by the
    /// published version.
    pub open spec fn sees_newer(self, source_build: bool, published_newer: bool) -> bool {
        if source_build {
            self.source_behind is Some && self.source_behind->0 > 0
        } else {
            published_newer
        }
    }

    /// A version is announced when it is newer and was not announced before.
    pub open spec fn announces(self, version: Seq<char>, newer: bool) -> bool {
        newer && self.announced != Some(version)
    }

    /// The cache after a successful refresh.
    pub open spec fn with_answer(
        self,
        c: CheckedView,
        source_build: bool,
        behind: Option<u64>,
        published_newer: bool,
        now_ns: u64,
    ) -> RuntimeView {
        let o = self.attempted(now_ns, behind);
        RuntimeView {
            checked: Some(c),
            last_error: None,
            not_published: false,
            announced: if o.announces(c.version, o.sees_newer(source_build, published_newer)) {
                Some(c.version)
            } else {
                o.announced
            },
            ..o
        }
    }

    /// The cached answer is old enough to be refreshed, and nothing stands against it.
    pub open spec fn wants_refresh(self, now_ns: u64, check_disabled: bool) -> bool {
        &&& self.last_attempt_ns matches Some(t) ==> elapsed(t, now_ns) >= AUTO_REFRESH_AFTER_NS
        &&& !self.refreshing
        &&& !check_disabled
    }
}

/// Why a forced check is refused.
#[derive(Clone, Copy, Debug, PartialEq, Eq, Structural)]
pub enum ForceError {
    Disabled,
    TooSoon,
}

/// Why an apply is refused.
#[derive(Clone, Copy, Debug, PartialEq, Eq, Structural)]
pub enum ApplyError {
    /// No one-click leg; the console shows the command.
    Unsupported,
    Disabled,
    /// A job runs, or an installer that has not resolved yet.
    JobRunning,
    /// A stream is live and the request did not force.
    SessionActive,
    /// No verified newer manifest, or no artifact for this machine.
    NothingToApply,
}

/// An installer in the manifest, by the machine it is for.
#[derive(Clone, Copy, Debug, PartialEq, Eq, Structural)]
pub enum WindowsAsset {
    X64,
    Arm64,
}

/// An apply that was reserved: what is put on, and from where.
pub struct Reserved {
    pub target_version: String,
    pub serial: u64,
    /// This machine's installer, where the manifest has one. The package manager of a Linux
    /// machine finds its own.
    pub asset: Option<WindowsAsset>,
}

#[verifier::ext_equal]
pub struct ReservedView {
    pub target_version: Seq<char>,
    pub serial: u64,
    pub asset: Option<WindowsAsset>,
}

impl View for Reserved {
    type V = ReservedView;

    open spec fn view(&self) -> ReservedView {
        ReservedView {
            target_version: self.target_version@,
            serial: self.serial,
            asset: self.asset,
        }
    }
}

/// What an apply request meets.
#[derive(Clone, Copy, Debug, PartialEq, Eq, Structural)]
pub struct ApplyAsk {
    pub force: bool,
    pub session_active: bool,
    /// An installer spawned before is still at work.
    pub still_applying: bool,
    /// The cached version is newer than the running one.
    pub newer: bool,
    pub arm64: bool,
    pub now_unix: u64,
}

/// What is wrong with an apply, in the order it is looked at.
pub open spec fn apply_refusal(e: ApplyEnv, rt: RuntimeView, a: ApplyAsk) -> Option<ApplyError> {
    let windows_leg = e.kind == InstallKind::WindowsInstaller;
    if e.disabled {
        Some(ApplyError::Disabled)
    } else if !windows_leg && !e.linux_leg() {
        Some(ApplyError::Unsupported)
    } else if e.on_omarchy() {
        Some(ApplyError::Unsupported)
    } else if e.linux_leg() && e.platform != Platform::Linux {
        Some(ApplyError::Unsupported)
    } else if e.linux_leg() && e.kind != InstallKind::SteamosSource && !e.helper_installed {
        Some(ApplyError::Unsupported)
    } else if e.kind == InstallKind::Pacman && !e.pacman_opted_in {
        Some(ApplyError::Unsupported)
    } else if a.session_active && !a.force {
        Some(ApplyError::SessionActive)
    } else if rt.job is Some || a.still_applying {
        Some(ApplyError::JobRunning)
    } else {
        match rt.checked {
            None => Some(ApplyError::NothingToApply),
            Some(c) => if !a.newer || (windows_leg && !has_asset(c, a.arm64)) {
                Some(ApplyError::NothingToApply)
            } else {
                None
            },
        }
    }
}

/// The manifest has an installer for this machine. The other machine's is the wrong program, not
/// a fallback.
pub open spec fn has_asset(c: CheckedView, arm64: bool) -> bool {
    if arm64 {
        c.has_windows_host_arm64
    } else {
        c.has_windows_host
    }
}

/// This machine's installer in the manifest.
pub open spec fn asset_of(c: CheckedView, arm64: bool) -> Option<WindowsAsset> {
    if !has_asset(c, arm64) {
        None
    } else if arm64 {
        Some(WindowsAsset::Arm64)
    } else {
        Some(WindowsAsset::X64)
    }
}

impl Runtime {
    pub fn new() -> (r: Runtime)
        ensures
            r@ == RuntimeView::fresh(),
            r@.coherent(),
    {
        Runtime {
            checked: None,
            last_error: None,
            not_published: false,
            refreshing: false,
            last_forced_ns: None,
            last_attempt_ns: None,
            announced: None,
            source_behind: None,
            job: None,
        }
    }

    /// Books a successful refresh; `true` when the version is to be announced: it is newer, and
    /// was not announced before. A source build goes by its commit count, every other one by
    /// `published_newer`.
    pub fn refreshed(
        &mut self,
        checked: Checked,
        source_build: bool,
        behind: Option<u64>,
        published_newer: bool,
        now_ns: u64,
    ) -> (announce: bool)
        ensures
            announce == old(self)@.attempted(now_ns, behind).announces(
                checked@.version,
                old(self)@.attempted(now_ns, behind).sees_newer(source_build, published_newer),
            ),
            final(self)@ == old(self)@.with_answer(
                checked@,
                source_build,
                behind,
                published_newer,
                now_ns,
            ),
            final(self)@.coherent(),
    {
        self.last_attempt_ns = Some(now_ns);
        self.refreshing = false;
        if behind.is_some() {
            self.source_behind = behind;
        }
        let newer: bool = if source_build {
            source_newer(self.source_behind)
        } else {
            published_newer
        };
        let known: bool = match &self.announced {
            Some(v) => text::same(v.as_str(), checked.manifest.version.as_str()),
            None => false,
        };
        let announce: bool = newer && !known;
        if announce {
            self.announced = Some(checked.manifest.version.clone());
        }
        self.last_error = None;
        self.not_published = false;
        self.checked = Some(checked);
        announce
    }

    /// Books a failed refresh. The cached answer stays.
    pub fn refresh_failed(&mut self, e: &FeedError, behind: Option<u64>, now_ns: u64)
        ensures
            ({
                let o = old(self)@.attempted(now_ns, behind);
                let benign = e is NotPublished && o.checked is None;
                final(self)@ == (RuntimeView {
                    last_error: if benign {
                        None
                    } else {
                        Some(e.text())
                    },
                    not_published: benign,
                    ..o
                })
            }),
            final(self)@.coherent(),
    {
        self.last_attempt_ns = Some(now_ns);
        self.refreshing = false;
        if behind.is_some() {
            self.source_behind = behind;
        }
        let r: (Option<String>, bool) = classify_failure(e, self.checked.is_some());
        self.last_error = r.0;
        self.not_published = r.1;
    }

    /// Whether reading the status kicks a background refresh; books it when it does. At most one
    /// runs at a time.
    pub fn maybe_refresh(&mut self, now_ns: u64, check_disabled: bool) -> (kick: bool)
        ensures
            kick == old(self)@.wants_refresh(now_ns, check_disabled),
            final(self)@ == if kick {
                RuntimeView { refreshing: true, last_attempt_ns: Some(now_ns), ..old(self)@ }
            } else {
                old(self)@
            },
    {
        let cold: bool = match self.last_attempt_ns {
            Some(t) => now_ns.saturating_sub(t) >= AUTO_REFRESH_AFTER_NS,
            None => true,
        };
        if cold && !self.refreshing && !check_disabled {
            self.refreshing = true;
            self.last_attempt_ns = Some(now_ns);
            true
        } else {
            false
        }
    }

    /// Admits a forced check, or says why not.
    pub fn force_check(&mut self, now_ns: u64, check_disabled: bool) -> (r: Result<(), ForceError>)
        ensures
            r == if check_disabled {
                Err::<(), ForceError>(ForceError::Disabled)
            } else if old(self).last_forced_ns is Some && elapsed(
                old(self).last_forced_ns->0,
                now_ns,
            ) < FORCE_MIN_INTERVAL_NS {
                Err(ForceError::TooSoon)
            } else {
                Ok(())
            },
            final(self)@ == if r is Ok {
                RuntimeView { last_forced_ns: Some(now_ns), refreshing: true, ..old(self)@ }
            } else {
                old(self)@
            },
    {
        if check_disabled {
            return Err(ForceError::Disabled);
        }
        match self.last_forced_ns {
            Some(t) => {
                if now_ns.saturating_sub(t) < FORCE_MIN_INTERVAL_NS {
                    return Err(ForceError::TooSoon);
                }
            },
            None => {},
        }
        self.last_forced_ns = Some(now_ns);
        self.refreshing = true;
        Ok(())
    }

    /// Reserves an apply of the cached version, or says why not. Version, serial and installer
    /// are read together from the one cached manifest. A refusal changes nothing.
    pub fn start_apply(&mut self, e: &ApplyEnv, a: &ApplyAsk) -> (r: Result<Reserved, ApplyError>)
        ensures
            match r {
                Ok(t) => apply_refusal(*e, old(self)@, *a) is None && t@ == (ReservedView {
                    target_version: old(self)@.checked->0.version,
                    serial: old(self)@.checked->0.serial,
                    asset: asset_of(old(self)@.checked->0, a.arm64),
                }),
                Err(why) => apply_refusal(*e, old(self)@, *a) == Some(why),
            },
            r is Ok && e.kind == InstallKind::WindowsInstaller ==> r->Ok_0.asset is Some,
            final(self)@ == if r is Ok {
                RuntimeView {
                    job: Some(
                        JobView {
                            target_version: old(self)@.checked->0.version,
                            stage: if e.kind == InstallKind::WindowsInstaller {
                                JobStage::Downloading
                            } else {
                                JobStage::Applying
                            },
                            received_bytes: 0,
                            total_bytes: None,
                            started_unix: a.now_unix,
                        },
                    ),
                    ..old(self)@
                }
            } else {
                old(self)@
            },
    {
        if e.disabled {
            return Err(ApplyError::Disabled);
        }
        let windows_leg: bool = e.kind == InstallKind::WindowsInstaller;
        let linux_leg: bool = match e.kind {
            InstallKind::Apt => true,
            InstallKind::Dnf => true,
            InstallKind::Sysext => true,
            InstallKind::RpmOstree => true,
            InstallKind::Pacman => true,
            InstallKind::SteamosSource => true,
            _ => false,
        };
        if !windows_leg && !linux_leg {
            return Err(ApplyError::Unsupported);
        }
        let linux: bool = e.platform == Platform::Linux;
        if linux && e.omarchy {
            return Err(ApplyError::Unsupported);
        }
        if linux_leg && !linux {
            return Err(ApplyError::Unsupported);
        }
        if linux_leg && e.kind != InstallKind::SteamosSource {
            if !e.helper_installed {
                return Err(ApplyError::Unsupported);
            }
            if e.kind == InstallKind::Pacman && !e.pacman_opted_in {
                return Err(ApplyError::Unsupported);
            }
        }
        if a.session_active && !a.force {
            return Err(ApplyError::SessionActive);
        }
        if self.job.is_some() || a.still_applying {
            return Err(ApplyError::JobRunning);
        }
        let reserved: Reserved = match &self.checked {
            None => {
                return Err(ApplyError::NothingToApply);
            },
            Some(c) => {
                let asset: Option<WindowsAsset> = if a.arm64 {
                    if c.manifest.has_windows_host_arm64 {
                        Some(WindowsAsset::Arm64)
                    } else {
                        None
                    }
                } else if c.manifest.has_windows_host {
                    Some(WindowsAsset::X64)
                } else {
                    None
                };
                if !a.newer || (windows_leg && asset.is_none()) {
                    return Err(ApplyError::NothingToApply);
                }
                Reserved {
                    target_version: c.manifest.version.clone(),
                    serial: c.manifest.serial,
                    asset,
                }
            },
        };
        self.job = Some(
            JobSnapshot {
                target_version: reserved.target_version.clone(),
                stage: if windows_leg {
                    JobStage::Downloading
                } else {
                    JobStage::Applying
                },
                received_bytes: 0,
                total_bytes: None,
                started_unix: a.now_unix,
            },
        );
        Ok(reserved)
    }

    /// Moves a running apply to its next stage; nothing without a job.
    pub fn at_stage(&mut self, stage: JobStage)
        ensures
            final(self)@ == (RuntimeView {
                job: match old(self)@.job {
                    Some(j) => Some(JobView { stage, ..j }),
                    None => None,
                },
                ..old(self)@
            }),
    {
        match self.job.take() {
            Some(j) => {
                let mut j = j;
                j.stage = stage;
                self.job = Some(j);
            },
            None => {},
        }
    }

    /// Books how much of the installer arrived; nothing without a job.
    pub fn progress(&mut self, received: u64, total: Option<u64>)
        ensures
            final(self)@ == (RuntimeView {
                job: match old(self)@.job {
                    Some(j) => Some(JobView { received_bytes: received, total_bytes: total, ..j }),
                    None => None,
                },
                ..old(self)@
            }),
    {
        match self.job.take() {
            Some(j) => {
                let mut j = j;
                j.received_bytes = received;
                j.total_bytes = total;
                self.job = Some(j);
            },
            None => {},
        }
    }

    /// Books an apply that ended in this process. One that awaits the restart stays: the next
    /// boot closes it.
    pub fn apply_ended(&mut self, awaits_restart: bool)
        ensures
            final(self)@ == if awaits_restart {
                old(self)@
            } else {
                RuntimeView { job: None, ..old(self)@ }
            },
    {
        if !awaits_restart {
            self.job = None;
        }
    }

    /// The cached manifest was published longer ago than [`STALE_AFTER_SECS`].
    pub fn stale(&self, now_unix: u64) -> (s: bool)
        ensures
            s == (self@.checked matches Some(c) && elapsed(c.serial, now_unix)
                > STALE_AFTER_SECS),
    {
        match &self.checked {
            Some(c) => now_unix.saturating_sub(c.manifest.serial) > STALE_AFTER_SECS,
            None => false,
        }
    }

    /// An apply is in flight although no job runs here: an installer from before still works.
    pub fn applying_from_intent(&self, intent_still_applying: bool) -> (a: bool)
        ensures
            a == (self@.job is None && intent_still_applying),
    {
        self.job.is_none() && intent_still_applying
    }
}

/// The durable outcome of an apply.
pub struct ResultRecord {
    pub ok: bool,
    pub from: String,
    pub to: String,
    pub finished_unix: u64,
    pub stage: Option<String>,
    pub error: Option<String>,
    pub log_path: Option<String>,
    /// Applied, and in force after the next reboot.
    pub staged: bool,
}

/// The record of an apply that failed in this process.
pub fn failed_record(from: &str, to: &str, stage: &str, error: &str, now_unix: u64) -> (r:
    ResultRecord)
    ensures
        !r.ok && !r.staged,
        r.from@ == from@,
        r.to@ == to@,
        r.finished_unix == now_unix,
        text::opt_string(r.stage) == Some(stage@),
        text::opt_string(r.error) == Some(error@),
        r.log_path is None,
{
    ResultRecord {
        ok: false,
        from: from.to_owned(),
        to: to.to_owned(),
        finished_unix: now_unix,
        stage: Some(stage.to_owned()),
        error: Some(error.to_owned()),
        log_path: None,
        staged: false,
    }
}

/// What became of an apply that an earlier process began.
#[derive(Clone, Copy, Debug, PartialEq, Eq, Structural)]
pub enum Reconciled {
    /// There was none.
    Nothing,
    StillApplying,
    Success,
    Failed,
}

/// What boot does about it.
#[derive(Clone, Copy, Debug, PartialEq, Eq, Structural)]
pub struct Closing {
    /// Write the record and remove the intent.
    pub settle: bool,
    /// Tell subscribers that the update is in.
    pub announce: bool,
}

/// Closes what an earlier process left: a resolved apply is settled, a good one announced, and
/// one still at work is left alone.
pub fn reconcile_at_boot(r: Reconciled) -> (c: Closing)
    ensures
        c.settle == (r is Success || r is Failed),
        c.announce == (r is Success),
{
    match r {
        Reconciled::Nothing => Closing { settle: false, announce: false },
        Reconciled::StillApplying => Closing { settle: false, announce: false },
        Reconciled::Success => Closing { settle: true, announce: true },
        Reconciled::Failed => Closing { settle: true, announce: false },
    }
}

/// What the console refuses to offer it also refuses to do: where support is `Notify`, an apply
/// is refused, unless only the operator's group is missing.
pub proof fn no_button_no_apply(e: ApplyEnv, rt: RuntimeView, a: ApplyAsk)
    requires
        e.support() == ApplySupport::Notify,
        e.opted_in,
    ensures
        apply_refusal(e, rt, a) is Some,
{
}

/// A version is announced once: whatever was known before a refresh, a later refresh that brings
/// the same version again does not announce it once more.
pub proof fn announced_once(
    rt: RuntimeView,
    c: CheckedView,
    source_build: bool,
    behind: Option<u64>,
    published_newer: bool,
    now_ns: u64,
    again: CheckedView,
    behind_again: Option<u64>,
    later_ns: u64,
    newer_again: bool,
)
    requires
        rt.attempted(now_ns, behind).sees_newer(source_build, published_newer),
        again.version == c.version,
    ensures
        !rt.with_answer(c, source_build, behind, published_newer, now_ns).attempted(
            later_ns,
            behind_again,
        ).announces(again.version, newer_again),
{
}

/// Highest of a run of serials, at least `floor`.
pub open spec fn highest(floor: u64, serials: Seq<u64>) -> u64
    decreases serials.len(),
{
    if serials.len() == 0 {
        floor
    } else {
        let h = highest(floor, serials.drop_last());
        if serials.last() > h {
            serials.last()
        } else {
            h
        }
    }
}

/// The floor is the highest serial ever stored, in any order: `trace[i + 1]` is the channel's
/// floor after storing `serials[i]` on `trace[i]`. So no accepted manifest is older than one
/// accepted before.
pub proof fn the_floor_only_rises(trace: Seq<u64>, serials: Seq<u64>)
    requires
        trace.len() == serials.len() + 1,
        forall|i: int|
            #![trigger serials[i]]
            0 <= i < serials.len() ==> trace[i + 1] == if serials[i] > trace[i] {
                serials[i]
            } else {
                trace[i]
            },
    ensures
        trace.last() == highest(trace[0], serials),
        trace.last() >= trace[0],
    decreases serials.len(),
{
    if serials.len() > 0 {
        let n = serials.len() - 1;
        assert forall|i: int|
            #![trigger serials.drop_last()[i]]
            0 <= i < serials.drop_last().len() implies trace.drop_last()[i + 1]
            == if serials.drop_last()[i] > trace.drop_last()[i] {
            serials.drop_last()[i]
        } else {
            trace.drop_last()[i]
        } by {
            assert(serials.drop_last()[i] == serials[i]);
        }
        the_floor_only_rises(trace.drop_last(), serials.drop_last());
        assert(serials[n] == serials.last());
    }
}

/// The console has a leg for this install: one that needs nothing more, or a package manager on
/// Linux with its helper.
pub open spec fn has_leg(e: ApplyEnv) -> bool {
    match e.kind {
        InstallKind::WindowsInstaller => true,
        InstallKind::SteamosSource => e.platform == Platform::Linux,
        InstallKind::Apt | InstallKind::Dnf | InstallKind::Sysext | InstallKind::RpmOstree =>
            e.platform == Platform::Linux && e.helper_installed,
        InstallKind::Pacman => e.platform == Platform::Linux && e.helper_installed
            && e.pacman_opted_in,
        InstallKind::Other => false,
    }
}

/// A live stream is not cut off: whatever the install, a request that does not force is refused
/// while a session is active, and changes nothing; where the console could apply, the refusal says
/// why.
pub proof fn a_live_stream_is_not_cut_off(
    rt: &mut Runtime,
    e: &ApplyEnv,
    a: &ApplyAsk,
    r: Result<Reserved, ApplyError>,
)
    requires
        call_ensures(Runtime::start_apply, (rt, e, a), r),
        a.session_active,
        !a.force,
    ensures
        r is Err,
        final(rt)@ == old(rt)@,
        !e.disabled && !(e.platform == Platform::Linux && e.omarchy) && has_leg(*e) ==> r == Err::<
            Reserved,
            ApplyError,
        >(ApplyError::SessionActive),
{
}

/// An apply is reserved only for a newer build that was checked, with nothing else in flight, where
/// the operator allows it and the console has a leg; and then it is, under force or without a
/// session. Everything else changes nothing.
pub proof fn an_apply_needs_every_leave(
    rt: &mut Runtime,
    e: &ApplyEnv,
    a: &ApplyAsk,
    r: Result<Reserved, ApplyError>,
)
    requires
        call_ensures(Runtime::start_apply, (rt, e, a), r),
    ensures
        r is Ok <==> {
            &&& !e.disabled
            &&& has_leg(*e)
            &&& !(e.platform == Platform::Linux && e.omarchy)
            &&& a.force || !a.session_active
            &&& old(rt).job is None && !a.still_applying
            &&& a.newer && old(rt).checked is Some
            &&& e.kind == InstallKind::WindowsInstaller ==> if a.arm64 {
                old(rt).checked->0.manifest.has_windows_host_arm64
            } else {
                old(rt).checked->0.manifest.has_windows_host
            }
        },
        r is Err ==> final(rt)@ == old(rt)@,
        e.disabled <==> r == Err::<Reserved, ApplyError>(ApplyError::Disabled),
        r == Err::<Reserved, ApplyError>(ApplyError::Unsupported) <==> !e.disabled && (!has_leg(*e)
            || (e.platform == Platform::Linux && e.omarchy)),
        r == Err::<Reserved, ApplyError>(ApplyError::SessionActive) ==> a.session_active
            && !a.force,
        r == Err::<Reserved, ApplyError>(ApplyError::JobRunning) ==> old(rt).job is Some
            || a.still_applying,
        r == Err::<Reserved, ApplyError>(ApplyError::NothingToApply) ==> old(rt).job is None
            && !a.still_applying && (a.force || !a.session_active),
{
}

/// What is reserved is what was checked: its version and serial, and this machine's installer and
/// no other. The job that starts is for that version, and while it runs no other is reserved.
pub proof fn one_apply_of_the_checked_build(
    rt: &mut Runtime,
    e: &ApplyEnv,
    a: &ApplyAsk,
    r: Result<Reserved, ApplyError>,
    later: &mut Runtime,
    e2: &ApplyEnv,
    a2: &ApplyAsk,
    r2: Result<Reserved, ApplyError>,
)
    requires
        call_ensures(Runtime::start_apply, (rt, e, a), r),
        r is Ok,
        old(later)@.job == final(rt)@.job,
        call_ensures(Runtime::start_apply, (later, e2, a2), r2),
    ensures
        r->Ok_0.target_version@ == old(rt).checked->0.manifest.version@,
        r->Ok_0.serial == old(rt).checked->0.manifest.serial,
        r->Ok_0.asset == Some(WindowsAsset::Arm64) <==> a.arm64
            && old(rt).checked->0.manifest.has_windows_host_arm64,
        r->Ok_0.asset == Some(WindowsAsset::X64) <==> !a.arm64
            && old(rt).checked->0.manifest.has_windows_host,
        final(rt).job is Some,
        final(rt).job->0.target_version@ == r->Ok_0.target_version@,
        final(rt).job->0.received_bytes == 0 && final(rt).job->0.total_bytes is None,
        final(rt).job->0.started_unix == a.now_unix,
        final(rt).job->0.stage == JobStage::Downloading <==> e.kind
            == InstallKind::WindowsInstaller,
        final(rt)@.checked == old(rt)@.checked,
        final(rt)@.announced == old(rt)@.announced,
        r2 is Err,
        final(later)@ == old(later)@,
{
    assert(old(rt)@.checked == Some(old(rt).checked->0@));
    assert(final(rt)@.job == Some(final(rt).job->0@));
}

/// A button is shown only where one can be pressed: never where the operator switched it off or
/// Omarchy owns the packages, staged exactly for an image-based system, and for a package manager
/// only with its helper and the operator in its group.
pub proof fn a_button_needs_a_leg(e: &ApplyEnv, s: ApplySupport)
    requires
        call_ensures(apply_support, (e,), s),
    ensures
        s != ApplySupport::Notify <==> !e.disabled && !(e.platform == Platform::Linux && e.omarchy)
            && has_leg(*e) && (e.kind == InstallKind::WindowsInstaller || e.kind
            == InstallKind::SteamosSource || e.opted_in),
        s == ApplySupport::Staged ==> e.kind == InstallKind::RpmOstree,
        s == ApplySupport::Full ==> e.kind != InstallKind::RpmOstree,
{
}

/// The hint to join the group is for someone whom nothing but the group keeps from a button.
pub proof fn the_hint_is_for_who_can_follow_it(e: &ApplyEnv, due: bool)
    requires
        call_ensures(opt_in_hint_due, (e,), due),
    ensures
        due ==> e.platform == Platform::Linux && !e.disabled && !e.omarchy && e.helper_installed
            && !e.opted_in,
        due && e.kind != InstallKind::Pacman ==> has_leg(*e),
        due ==> e.kind != InstallKind::WindowsInstaller && e.kind != InstallKind::SteamosSource
            && e.kind != InstallKind::Other,
        !e.disabled && !e.omarchy && e.helper_installed && !e.opted_in && e.platform
            == Platform::Linux && has_leg(*e) && e.kind != InstallKind::SteamosSource && e.kind
            != InstallKind::WindowsInstaller ==> due,
{
}

/// An accepted manifest is the channel's floor from then on: no older one is accepted after it,
/// the same one is, and no other channel's floor moves.
pub proof fn no_rollback(
    f: &mut FloorFile,
    channel: &str,
    serial: u64,
    r: Result<bool, FeedError>,
    g: &mut FloorFile,
    again: u64,
    r2: Result<bool, FeedError>,
    other: &str,
    before: u64,
    after: u64,
    last: &FloorFile,
)
    requires
        old(f).wf(),
        call_ensures(FloorFile::accept, (f, channel, serial), r),
        *old(g) == *final(f),
        call_ensures(FloorFile::accept, (g, channel, again), r2),
        other@ != channel@,
        call_ensures(FloorFile::load_floor, (old(f), other), before),
        *last == *final(g),
        call_ensures(FloorFile::load_floor, (last, other), after),
    ensures
        r is Ok && again < serial ==> r2 is Err,
        r is Ok && again >= serial ==> r2 is Ok,
        r is Ok && r2 is Ok ==> (r2->Ok_0 <==> again > serial),
        before == after,
{
}

/// The floor that is read is the one that was stored, where that raised it; a lower serial leaves
/// it.
pub proof fn a_stored_floor_is_read_back(
    f: &mut FloorFile,
    channel: &str,
    serial: u64,
    raised: bool,
    after: &FloorFile,
    was: u64,
    is: u64,
)
    requires
        old(f).wf(),
        call_ensures(FloorFile::load_floor, (old(f), channel), was),
        call_ensures(FloorFile::store_floor, (f, channel, serial), raised),
        *after == *final(f),
        call_ensures(FloorFile::load_floor, (after, channel), is),
    ensures
        is >= was && is >= serial,
        is == was || is == serial,
        raised <==> is != was,
{
}

/// A new file has no floor: every manifest is accepted once.
pub proof fn a_new_file_has_no_floor(f: FloorFile, channel: &str, floor: u64)
    requires
        call_ensures(FloorFile::new, (), f),
        call_ensures(FloorFile::load_floor, (&f, channel), floor),
    ensures
        floor == 0,
        f.wf(),
{
}

/// A manifest below the floor is refused, and no other.
pub proof fn only_an_older_manifest_is_refused(serial: u64, floor: u64, r: Result<(), FeedError>)
    requires
        call_ensures(check_serial, (serial, floor), r),
    ensures
        r is Err <==> serial < floor,
{
}

/// A successful check is what the status shows: its manifest is cached, no error stands, and a
/// version is announced exactly when it is newer and was not announced last.
pub proof fn a_good_check_clears_the_error(
    rt: &mut Runtime,
    checked: Checked,
    source_build: bool,
    behind: Option<u64>,
    published_newer: bool,
    now_ns: u64,
    announce: bool,
)
    requires
        call_ensures(
            Runtime::refreshed,
            (rt, checked, source_build, behind, published_newer, now_ns),
            announce,
        ),
    ensures
        final(rt)@.checked == Some(checked@),
        final(rt)@.last_error is None && !final(rt)@.not_published && !final(rt)@.refreshing,
        final(rt)@.last_attempt_ns == Some(now_ns),
        final(rt)@.job == old(rt)@.job,
        behind is Some ==> final(rt)@.source_behind == behind,
        behind is None ==> final(rt)@.source_behind == old(rt)@.source_behind,
        !source_build ==> (announce <==> published_newer && old(rt)@.announced != Some(
            checked.manifest.version@,
        )),
        source_build ==> (announce <==> (final(rt)@.source_behind matches Some(n) && n > 0) && old(rt)@.announced != Some(checked.manifest.version@)),
        announce ==> final(rt)@.announced == Some(checked.manifest.version@),
        !announce ==> final(rt)@.announced == old(rt)@.announced,
{
}

/// A failed check keeps the last answer and says what failed; only a channel that never had a
/// manifest is empty rather than broken.
pub proof fn a_failed_check_keeps_the_answer(
    rt: &mut Runtime,
    e: &FeedError,
    behind: Option<u64>,
    now_ns: u64,
)
    requires
        call_ensures(Runtime::refresh_failed, (rt, e, behind, now_ns), ()),
    ensures
        final(rt)@.checked == old(rt)@.checked,
        final(rt)@.announced == old(rt)@.announced,
        final(rt)@.job == old(rt)@.job,
        !final(rt)@.refreshing && final(rt)@.last_attempt_ns == Some(now_ns),
        final(rt)@.not_published <==> (e is NotPublished && old(rt)@.checked is None),
        final(rt)@.last_error is None <==> final(rt)@.not_published,
        e matches FeedError::Failed(why) ==> final(rt)@.last_error == Some(why@),
{
}

/// A check is kicked by a look at the status at most every six hours and one at a time, and never
/// where checks are off.
pub proof fn a_look_kicks_one_check(
    rt: &mut Runtime,
    now_ns: u64,
    off: bool,
    kick: bool,
    later: &mut Runtime,
    later_ns: u64,
    again: bool,
)
    requires
        call_ensures(Runtime::maybe_refresh, (rt, now_ns, off), kick),
        old(later)@ == final(rt)@,
        call_ensures(Runtime::maybe_refresh, (later, later_ns, off), again),
    ensures
        off ==> !kick,
        old(rt)@.refreshing ==> !kick,
        !off && !old(rt)@.refreshing && old(rt)@.last_attempt_ns is None ==> kick,
        (old(rt)@.last_attempt_ns matches Some(t) && now_ns - t < 21_600_000_000_000) ==> !kick,
        !off && !old(rt)@.refreshing && (old(rt)@.last_attempt_ns matches Some(t) && now_ns - t
            >= 21_600_000_000_000) ==> kick,
        kick ==> final(rt)@.refreshing && !again,
        !kick ==> final(rt)@ == old(rt)@,
{
}

/// A forced check is admitted at most every half minute, and never where checks are off.
pub proof fn forced_checks_are_spaced(
    rt: &mut Runtime,
    now_ns: u64,
    off: bool,
    r: Result<(), ForceError>,
    later: &mut Runtime,
    later_ns: u64,
    r2: Result<(), ForceError>,
)
    requires
        call_ensures(Runtime::force_check, (rt, now_ns, off), r),
        old(later).last_forced_ns == final(rt).last_forced_ns,
        call_ensures(Runtime::force_check, (later, later_ns, off), r2),
    ensures
        off <==> r == Err::<(), ForceError>(ForceError::Disabled),
        !off && old(rt).last_forced_ns is None ==> r is Ok,
        r is Ok && later_ns - now_ns < 30_000_000_000 ==> r2 == Err::<(), ForceError>(
            ForceError::TooSoon,
        ),
        r is Ok && later_ns - now_ns >= 30_000_000_000 ==> r2 is Ok,
        r is Ok ==> final(rt)@.refreshing,
        r is Err ==> final(rt)@ == old(rt)@,
{
}

/// A job's stage, its progress and its end touch nothing but the job; one that waits for the
/// restart stays.
pub proof fn a_job_runs_its_course(
    a: &mut Runtime,
    stage: JobStage,
    b: &mut Runtime,
    received: u64,
    total: Option<u64>,
    c: &mut Runtime,
    awaits: bool,
)
    requires
        call_ensures(Runtime::at_stage, (a, stage), ()),
        call_ensures(Runtime::progress, (b, received, total), ()),
        call_ensures(Runtime::apply_ended, (c, awaits), ()),
    ensures
        old(a)@.job is None <==> final(a)@.job is None,
        old(a)@.job matches Some(j) ==> final(a)@.job->0.stage == stage
            && final(a)@.job->0.target_version == j.target_version
            && final(a)@.job->0.received_bytes == j.received_bytes,
        final(a)@.checked == old(a)@.checked,
        old(b)@.job is None <==> final(b)@.job is None,
        old(b)@.job matches Some(j) ==> final(b)@.job->0.received_bytes == received
            && final(b)@.job->0.total_bytes == total && final(b)@.job->0.stage == j.stage
            && final(b)@.job->0.target_version == j.target_version,
        final(b)@.checked == old(b)@.checked,
        awaits ==> final(c)@ == old(c)@,
        !awaits ==> final(c)@.job is None && final(c)@.checked == old(c)@.checked,
{
}

/// A manifest is stale when it was published over forty-five days ago; nothing checked is not.
pub proof fn an_old_manifest_is_stale(rt: &Runtime, now_unix: u64, s: bool)
    requires
        call_ensures(Runtime::stale, (rt, now_unix), s),
    ensures
        s <==> rt.checked is Some && now_unix - rt.checked->0.manifest.serial > 45 * 86_400,
{
}

/// What an earlier process began is settled once it is over, and announced only where it worked.
pub proof fn only_a_good_update_is_announced(r: Reconciled, c: Closing)
    requires
        call_ensures(reconcile_at_boot, (r,), c),
    ensures
        c.announce ==> c.settle && r == Reconciled::Success,
        r == Reconciled::Success ==> c.announce,
        r == Reconciled::Failed ==> c.settle && !c.announce,
        r == Reconciled::Nothing || r == Reconciled::StillApplying ==> !c.settle && !c.announce,
{
}

/// The words that switch a feature off.
pub proof fn a_knob_says_no(v: Option<&str>, off: bool)
    requires
        call_ensures(knob_disables, (v,), off),
    ensures
        off <==> v is Some && (v->0@ == seq!['0'] || v->0@ == seq!['o', 'f', 'f'] || v->0@ == seq![
            'f',
            'a',
            'l',
            's',
            'e',
        ]),
{
    reveal_strlit("0");
    reveal_strlit("false");
    reveal_strlit("off");
    assert("0"@ =~= seq!['0']);
    assert("off"@ =~= seq!['o', 'f', 'f']);
    assert("false"@ =~= seq!['f', 'a', 'l', 's', 'e']);
}

/// A source build is behind only by counted commits.
pub proof fn only_counted_commits_are_newer(behind: Option<u64>, newer: bool)
    requires
        call_ensures(source_newer, (behind,), newer),
    ensures
        behind is None || behind == Some(0u64) ==> !newer,
        behind is Some && behind != Some(0u64) ==> newer,
{
}

/// An empty channel is no error until something was seen on it; from then on, and for every other
/// failure, the reason is shown. It is never both.
pub proof fn a_failure_is_shown_or_benign(
    e: &FeedError,
    had: bool,
    m: String,
    r: (Option<String>, bool),
)
    requires
        call_ensures(FeedError::message, (e,), m),
        call_ensures(classify_failure, (e, had), r),
    ensures
        *e matches FeedError::Failed(why) ==> m@ == why@ && !r.1 && r.0 is Some,
        *e is NotPublished && !had ==> r.1 && r.0 is None,
        *e is NotPublished && had ==> !r.1 && r.0 is Some,
        *e is NotPublished ==> m@ == "no release has been published on this channel yet"@,
        r.0 matches Some(s) ==> s@ == m@,
        r.0 is Some <==> !r.1,
{
    assert(text::opt_string(r.0) is Some <==> r.0 is Some);
    if r.0 is Some {
        assert(text::opt_string(r.0) == Some(r.0->0@));
    }
}

/// A failed apply is recorded with where it came from and went to, when and where it broke off
/// and why; an installer from before is at work only where no job runs here.
pub proof fn a_failed_apply_is_recorded(
    from: &str,
    to: &str,
    stage: &str,
    error: &str,
    now_unix: u64,
    r: ResultRecord,
    rt: &Runtime,
    intent: bool,
    a: bool,
)
    requires
        call_ensures(failed_record, (from, to, stage, error, now_unix), r),
        call_ensures(Runtime::applying_from_intent, (rt, intent), a),
    ensures
        !r.ok && !r.staged,
        r.from@ == from@ && r.to@ == to@ && r.finished_unix == now_unix,
        r.stage is Some && r.stage->0@ == stage@,
        r.error is Some && r.error->0@ == error@,
        a ==> intent && rt@.job is None,
        intent && rt@.job is None ==> a,
{
    assert(text::opt_string(r.stage) == Some(stage@));
    assert(text::opt_string(r.error) == Some(error@));
}

} // verus!
