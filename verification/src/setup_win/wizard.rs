//! The wizard's pages as data: which step comes next, what a page says and offers, and what its
//! controls answer. Drawing them stays with the caller.
//!
//! An installed box opens to be managed: its welcome offers to change or to remove. The
//! uninstaller is the same page, offering only the removal.

use crate::setup::choices::{LAN_BIND, LOOPBACK_BIND};
use crate::setup::facts::DOCS;
use crate::setup::platform::windows::report;
use crate::setup::platform::windows::{Artifact, Installed, NetworkAnswer, WinChoices, WinFacts};
use crate::setup::ui;
use crate::setup::ui::Told;
use crate::text;
use crate::text::Sep;
use vstd::prelude::*;
use vstd::string::StringExecFns;

verus! {

/// What is shown in place of the password until it is asked for.
pub const PASSWORD_MASK: &'static str = "••••••••••••";

/// Why a public network matters.
pub const NETWORK_WHY: &'static str =
    "Windows scopes the standard firewall rules to private networks, so on this network the host would be silently unreachable. VPN and virtual adapters are routinely Public by design — this changes only the named network, never a global setting.";

/// Where the password is kept and how it is changed.
pub const PASSWORD_WHERE: &'static str =
    "Stored in %ProgramData%\\punktfunk\\web-password. To change it later, edit that file and run `punktfunk-host service restart` from an elevated PowerShell.";

/// A step of the wizard.
#[derive(Clone, Copy, Debug, PartialEq, Eq, Structural)]
pub enum WizStep {
    Welcome,
    Configure,
    Network,
    Install,
    Done,
}

/// Where the wizard stands and which way it got there.
#[derive(Clone, Copy, Debug, PartialEq, Eq, Structural)]
pub struct Nav {
    pub step: WizStep,
    pub forward: bool,
}

/// What a line of the log is.
#[derive(Clone, Copy, Debug, PartialEq, Eq, Structural)]
pub enum LineKind {
    Phase,
    Cmd,
    Fine,
    Warn,
    Fail,
    Detail,
    Text,
}

/// A line of the log.
pub struct LogLine {
    pub kind: LineKind,
    pub text: String,
}

/// How far the install is.
#[derive(Clone, Copy, Debug, PartialEq, Eq, Structural)]
pub enum InstallPhase {
    Idle,
    Running,
    Failed,
    Finished,
}

/// What a run of the wizard is.
#[derive(Clone, Copy, Debug, PartialEq, Eq, Structural)]
pub struct Run {
    pub artifact: Artifact,
    /// The run removes instead of installing.
    pub uninstall: bool,
    /// The configuration is on the path; off, the defaults are installed.
    pub custom: bool,
    pub install: InstallPhase,
}

/// The line of something said.
pub fn log_line(t: &Told) -> (l: LogLine)
    ensures
        ({
            match t@ {
                ui::ToldView::Say(m) => l.kind == LineKind::Phase && l.text@ == m,
                ui::ToldView::Fine(m) => l.kind == LineKind::Fine && l.text@ == m,
                ui::ToldView::Warn(m) => l.kind == LineKind::Warn && l.text@ == m,
                ui::ToldView::Plus(m) => l.kind == LineKind::Cmd && l.text@ == m,
                ui::ToldView::Detail(m) => l.kind == LineKind::Detail && l.text@ == m,
                ui::ToldView::Line(m) => l.kind == LineKind::Text && l.text@ == m,
                ui::ToldView::Blank => l.kind == LineKind::Text && l.text@ == ""@,
            }
        }),
{
    match t {
        Told::Say(m) => LogLine { kind: LineKind::Phase, text: m.clone() },
        Told::Fine(m) => LogLine { kind: LineKind::Fine, text: m.clone() },
        Told::Warn(m) => LogLine { kind: LineKind::Warn, text: m.clone() },
        Told::Plus(m) => LogLine { kind: LineKind::Cmd, text: m.clone() },
        Told::Detail(m) => LogLine { kind: LineKind::Detail, text: m.clone() },
        Told::Line(m) => LogLine { kind: LineKind::Text, text: m.clone() },
        Told::Blank => LogLine { kind: LineKind::Text, text: "".to_owned() },
    }
}

/// The line of a run that broke off.
pub fn fail_line(msg: &str) -> (l: LogLine)
    ensures
        l.kind == LineKind::Fail,
        l.text@ == msg@,
{
    LogLine { kind: LineKind::Fail, text: msg.to_owned() }
}

/// The path of a run: an uninstall has nothing to configure, and the defaults skip it too.
pub open spec fn path_of(run: Run, steps: Seq<WizStep>) -> Seq<WizStep> {
    if run.uninstall {
        Seq::<WizStep>::empty().push(WizStep::Welcome).push(WizStep::Install).push(WizStep::Done)
    } else {
        steps.filter(|s: WizStep| run.custom || s != WizStep::Configure)
    }
}

/// The path of a run; `steps` are those the box calls for.
pub fn run_steps(run: &Run, steps: &Vec<WizStep>) -> (out: Vec<WizStep>)
    ensures
        out@ == path_of(*run, steps@),
{
    let mut out: Vec<WizStep> = Vec::new();
    if run.uninstall {
        out.push(WizStep::Welcome);
        out.push(WizStep::Install);
        out.push(WizStep::Done);
        return out;
    }
    let ghost f = |s: WizStep| run.custom || s != WizStep::Configure;
    let mut i: usize = 0;
    proof {
        reveal(Seq::filter);
        assert(steps@.take(0) =~= Seq::<WizStep>::empty());
        assert(out@ =~= steps@.take(0).filter(f));
    }
    while i < steps.len()
        invariant
            i <= steps@.len(),
            f == (|s: WizStep| run.custom || s != WizStep::Configure),
            out@ == steps@.take(i as int).filter(f),
        decreases steps@.len() - i,
    {
        proof {
            reveal(Seq::filter);
            assert(steps@.take(i + 1).drop_last() =~= steps@.take(i as int));
            assert(steps@.take(i + 1).last() == steps@[i as int]);
        }
        if run.custom || steps[i] != WizStep::Configure {
            out.push(steps[i]);
        }
        i = i + 1;
    }
    assert(steps@.take(i as int) =~= steps@);
    out
}

/// The first place of a step at or after `k`; the length when there is none.
pub open spec fn place_of(path: Seq<WizStep>, cur: WizStep, k: int) -> int
    decreases path.len() - k,
{
    if k >= path.len() || k < 0 {
        path.len() as int
    } else if path[k] == cur {
        k
    } else {
        place_of(path, cur, k + 1)
    }
}

fn find_step(path: &Vec<WizStep>, cur: WizStep) -> (i: usize)
    ensures
        i == place_of(path@, cur, 0),
        i <= path@.len(),
{
    let mut i: usize = 0;
    while i < path.len()
        invariant
            i <= path@.len(),
            place_of(path@, cur, 0) == place_of(path@, cur, i as int),
        decreases path@.len() - i,
    {
        if path[i] == cur {
            return i;
        }
        i = i + 1;
    }
    i
}

/// The step after one on a path.
pub open spec fn step_after(path: Seq<WizStep>, cur: WizStep) -> Option<WizStep> {
    let i = place_of(path, cur, 0);
    if i + 1 < path.len() {
        Some(path[i + 1])
    } else {
        None
    }
}

fn next_step(path: &Vec<WizStep>, cur: WizStep) -> (n: Option<WizStep>)
    ensures
        n == step_after(path@, cur),
{
    let i: usize = find_step(path, cur);
    let n: usize = path.len();
    if i < n && i < n - 1 {
        Some(path[i + 1])
    } else {
        None
    }
}

/// What going on will do: install now, or one more step first.
pub fn go_label(path: &Vec<WizStep>, cur: WizStep) -> (s: &'static str)
    ensures
        s@ == if step_after(path@, cur) == Some(WizStep::Install) {
            "Install"@
        } else {
            "Continue"@
        },
{
    match next_step(path, cur) {
        Some(n) => if n == WizStep::Install {
            "Install"
        } else {
            "Continue"
        },
        None => "Continue",
    }
}

/// The name of a step; on a removal the install says so.
pub open spec fn title_of(step: WizStep, uninstall: bool) -> Seq<char> {
    match step {
        WizStep::Welcome => "Welcome"@,
        WizStep::Configure => "Configure"@,
        WizStep::Network => "Network"@,
        WizStep::Install => if uninstall {
            "Uninstall"@
        } else {
            "Install"@
        },
        WizStep::Done => "Done"@,
    }
}

pub fn step_title(step: WizStep, uninstall: bool) -> (s: &'static str)
    ensures
        s@ == title_of(step, uninstall),
{
    match step {
        WizStep::Welcome => "Welcome",
        WizStep::Configure => "Configure",
        WizStep::Network => "Network",
        WizStep::Install => if uninstall {
            "Uninstall"
        } else {
            "Install"
        },
        WizStep::Done => "Done",
    }
}

/// What going on leads to.
#[derive(Clone, Copy, Debug, PartialEq, Eq, Structural)]
pub struct Advance {
    /// Where to; unset when an install is under way already.
    pub to: Option<Nav>,
    /// The network step opens on its recommended answer.
    pub recommend_private: bool,
    /// The install starts.
    pub start: bool,
}

/// What going on from a step leads to. The install starts once: not again while one runs or after
/// it ended.
pub open spec fn advance_of(
    path: Seq<WizStep>,
    cur: WizStep,
    install: InstallPhase,
    skipping: bool,
) -> Advance {
    let next = match step_after(path, cur) {
        Some(n) => n,
        None => WizStep::Done,
    };
    if next == WizStep::Install && install != InstallPhase::Idle {
        Advance { to: None, recommend_private: false, start: false }
    } else {
        Advance {
            to: Some(Nav { step: next, forward: true }),
            recommend_private: next == WizStep::Network && skipping,
            start: next == WizStep::Install,
        }
    }
}

/// Goes on from a step. `skipping` says that the network is not answered yet.
pub fn advance(path: &Vec<WizStep>, cur: WizStep, install: InstallPhase, skipping: bool) -> (a:
    Advance)
    ensures
        a == advance_of(path@, cur, install, skipping),
{
    let next: WizStep = match next_step(path, cur) {
        Some(n) => n,
        None => WizStep::Done,
    };
    if next == WizStep::Install && install != InstallPhase::Idle {
        Advance { to: None, recommend_private: false, start: false }
    } else {
        Advance {
            to: Some(Nav { step: next, forward: true }),
            recommend_private: next == WizStep::Network && skipping,
            start: next == WizStep::Install,
        }
    }
}

/// The recommended answer for the network: make the first public one private.
pub fn recommended_network(facts: &WinFacts) -> (a: NetworkAnswer)
    ensures
        a matches NetworkAnswer::MakePrivate(n) && n@ == if facts.public().len() > 0 {
            facts.public()[0]
        } else {
            ""@
        },
{
    let public: Vec<String> = facts.public_networks();
    assert(text::contents(public@).len() == public@.len());
    if public.len() > 0 {
        assert(text::contents(public@)[0] == public@[0]@);
        NetworkAnswer::MakePrivate(public[0].clone())
    } else {
        NetworkAnswer::MakePrivate("".to_owned())
    }
}

/// Goes back from a step; nowhere from the first or from one off the path.
pub open spec fn back_of(path: Seq<WizStep>, cur: WizStep) -> Option<Nav> {
    let i = place_of(path, cur, 0);
    if 0 < i < path.len() {
        Some(Nav { step: path[i - 1], forward: false })
    } else {
        None
    }
}

pub fn back(path: &Vec<WizStep>, cur: WizStep) -> (n: Option<Nav>)
    ensures
        n == back_of(path@, cur),
{
    let i: usize = find_step(path, cur);
    if i > 0 && i < path.len() {
        Some(Nav { step: path[i - 1], forward: false })
    } else {
        None
    }
}

/// What an install's end leads to.
pub fn install_ended(succeeded: bool) -> (r: (InstallPhase, Option<Nav>))
    ensures
        r == if succeeded {
            (InstallPhase::Finished, Some(Nav { step: WizStep::Done, forward: true }))
        } else {
            (InstallPhase::Failed, None)
        },
{
    if succeeded {
        (InstallPhase::Finished, Some(Nav { step: WizStep::Done, forward: true }))
    } else {
        (InstallPhase::Failed, None)
    }
}

/// A dot of the stepper and the half lines beside it.
#[derive(Clone, Copy, Debug, PartialEq, Eq, Structural)]
pub struct Dot {
    /// The page stands here.
    pub current: bool,
    pub filled: bool,
    pub left_lit: bool,
    pub left_hidden: bool,
    pub right_lit: bool,
    pub right_hidden: bool,
}

/// The dot of step `i` of `n` on a run that stands at `pos`.
pub open spec fn dot_of(i: int, n: int, pos: int) -> Dot {
    Dot {
        current: i == pos,
        filled: i <= pos,
        left_lit: 0 < i <= pos,
        left_hidden: i == 0,
        right_lit: i < pos,
        right_hidden: i + 1 == n,
    }
}

/// The stepper: filled through the current step, hollow ahead.
pub fn stepper(n: usize, pos: usize) -> (v: Vec<Dot>)
    ensures
        v@.len() == n,
        forall|i: int| 0 <= i < n ==> #[trigger] v@[i] == dot_of(i, n as int, pos as int),
{
    let mut v: Vec<Dot> = Vec::new();
    let mut i: usize = 0;
    while i < n
        invariant
            i <= n,
            v@.len() == i,
            forall|k: int| 0 <= k < i ==> #[trigger] v@[k] == dot_of(k, n as int, pos as int),
        decreases n - i,
    {
        v.push(
            Dot {
                current: i == pos,
                filled: i <= pos,
                left_lit: i > 0 && i <= pos,
                left_hidden: i == 0,
                right_lit: i < pos,
                right_hidden: i == n - 1,
            },
        );
        i = i + 1;
    }
    v
}

/// Where the stepper of a page stands; on the first dot for a step off the path.
pub fn stepper_at(path: &Vec<WizStep>, step: WizStep) -> (i: usize)
    ensures
        i == if place_of(path@, step, 0) < path@.len() {
            place_of(path@, step, 0)
        } else {
            0
        },
{
    let i: usize = find_step(path, step);
    if i < path.len() {
        i
    } else {
        0
    }
}

/// A share of the install bar.
#[derive(Clone, Copy, Debug, PartialEq, Eq, Structural)]
pub struct Share {
    pub part: u64,
    pub whole: u64,
}

/// The share of the bar an install has reached, in halves of a phase: half a phase back of the
/// headings seen, over the plan's phases, of which there is at least one.
pub open spec fn share_of(install: InstallPhase, seen: nat, phases: nat) -> Share {
    let whole = 2 * (if phases == 0 {
        1
    } else {
        phases
    });
    match install {
        InstallPhase::Idle => Share { part: 0, whole: whole as u64 },
        InstallPhase::Finished => Share { part: whole as u64, whole: whole as u64 },
        _ => Share {
            part: if seen == 0 {
                0
            } else {
                (2 * seen - 1) as u64
            },
            whole: whole as u64,
        },
    }
}

/// The share of the bar an install has reached.
pub fn bar_target(install: InstallPhase, seen: u32, phases: u32) -> (s: Share)
    ensures
        s == share_of(install, seen as nat, phases as nat),
        s.whole > 0,
{
    let whole: u64 = if phases == 0 {
        2
    } else {
        2 * phases as u64
    };
    match install {
        InstallPhase::Idle => Share { part: 0, whole },
        InstallPhase::Finished => Share { part: whole, whole },
        _ => Share {
            part: if seen == 0 {
                0
            } else {
                2 * seen as u64 - 1
            },
            whole,
        },
    }
}

/// The phase headings in the first `n` lines of a log.
pub open spec fn headings(log: Seq<LogLine>, n: int) -> nat
    decreases n,
{
    if n <= 0 {
        0
    } else if log[n - 1].kind == LineKind::Phase {
        headings(log, n - 1) + 1
    } else {
        headings(log, n - 1)
    }
}

/// Counts the phase headings of a log.
pub fn phases_seen(log: &Vec<LogLine>) -> (n: usize)
    ensures
        n == headings(log@, log@.len() as int),
{
    let mut n: usize = 0;
    let mut i: usize = 0;
    while i < log.len()
        invariant
            i <= log@.len(),
            n <= i,
            n == headings(log@, i as int),
        decreases log@.len() - i,
    {
        if log[i].kind == LineKind::Phase {
            n = n + 1;
        }
        i = i + 1;
    }
    n
}

/// A line of the install page.
pub open spec fn shown_line(kind: LineKind, t: Seq<char>) -> Seq<char> {
    match kind {
        LineKind::Phase => t,
        LineKind::Cmd => "  + "@ + t,
        LineKind::Fine => "✓ "@ + t,
        LineKind::Warn => "⚠ "@ + t,
        LineKind::Fail => "✗ "@ + t,
        LineKind::Detail => "  "@ + t,
        LineKind::Text => t,
    }
}

pub fn install_line(line: &LogLine) -> (s: String)
    ensures
        s@ == shown_line(line.kind, line.text@),
{
    match line.kind {
        LineKind::Phase => line.text.clone(),
        LineKind::Cmd => "  + ".to_owned().concat(line.text.as_str()),
        LineKind::Fine => "✓ ".to_owned().concat(line.text.as_str()),
        LineKind::Warn => "⚠ ".to_owned().concat(line.text.as_str()),
        LineKind::Fail => "✗ ".to_owned().concat(line.text.as_str()),
        LineKind::Detail => "  ".to_owned().concat(line.text.as_str()),
        LineKind::Text => line.text.clone(),
    }
}

/// The install page: its status, whether it turns, and whether it can be closed. Nothing cancels
/// a run halfway.
#[derive(Clone, Copy, Debug, PartialEq, Eq)]
pub struct InstallPage {
    pub status: &'static str,
    pub turning: bool,
    pub closable: bool,
}

pub fn install_page(run: &Run) -> (p: InstallPage)
    ensures
        p.turning == (run.install == InstallPhase::Running),
        p.closable == (run.install == InstallPhase::Failed),
        p.status@ == if run.install == InstallPhase::Failed {
            "Something went wrong — the log below has the step."@
        } else if run.uninstall {
            "Removing punktfunk…"@
        } else {
            "Installing punktfunk…"@
        },
{
    let status: &'static str = if run.install == InstallPhase::Failed {
        "Something went wrong — the log below has the step."
    } else if run.uninstall {
        "Removing punktfunk…"
    } else {
        "Installing punktfunk…"
    };
    InstallPage {
        status,
        turning: run.install == InstallPhase::Running,
        closable: run.install == InstallPhase::Failed,
    }
}

/// A button of the welcome page.
#[derive(Clone, Copy, Debug, PartialEq, Eq, Structural)]
pub enum WelcomeButton {
    Uninstall,
    Reconfigure,
    Go,
}

/// The welcome page.
pub struct WelcomePage {
    /// What is installed already.
    pub subtitle: Option<String>,
    pub sentence: &'static str,
    pub buttons: Vec<WelcomeButton>,
    /// What the two ways to set up say, on a fresh install.
    pub options: Option<(&'static str, &'static str)>,
}

/// The name of a payload.
pub open spec fn what_of(artifact: Artifact) -> Seq<char> {
    match artifact {
        Artifact::Host => "host"@,
        Artifact::Client => "client"@,
    }
}

/// What is installed already.
pub open spec fn subtitle_of(facts: WinFacts, artifact: Artifact) -> Option<Seq<char>> {
    match facts.install_for(artifact) {
        None => None,
        Some(i) => Some(
            (match i.version {
                Some(v) => v@ + " · "@,
                None => ""@,
            }) + what_of(artifact) + " installed"@,
        ),
    }
}

/// What the welcome says.
pub open spec fn sentence_of(removing: bool, fresh: bool, artifact: Artifact) -> Seq<char> {
    if removing {
        "This removes punktfunk from this PC. Identity, pairings and passwords stay — a reinstall picks them up."@
    } else if !fresh {
        "Reconfigure keeps what is on this PC and applies your changes. Uninstall removes it — identity, pairings and passwords stay."@
    } else {
        match artifact {
            Artifact::Host =>
                "This PC becomes the one you stream from: the punktfunk host sends its screen, audio and games to the devices you play on."@,
            Artifact::Client =>
                "This PC becomes a device you play on: the punktfunk client shows the stream from the PC you stream from."@,
        }
    }
}

/// What the welcome offers.
pub open spec fn buttons_of(removing: bool, fresh: bool) -> Seq<WelcomeButton> {
    if removing {
        seq![WelcomeButton::Uninstall]
    } else if !fresh {
        seq![WelcomeButton::Uninstall, WelcomeButton::Reconfigure]
    } else {
        seq![WelcomeButton::Go]
    }
}

/// What the two ways to set up say.
pub open spec fn ways_of(artifact: Artifact) -> (Seq<char>, Seq<char>) {
    match artifact {
        Artifact::Host => (
            "The defaults: virtual display and gamepad drivers, the HDR layer, a tray icon, and the service starts right away. A web console password is generated for you."@,
            "Pick the drivers, Moonlight compatibility, firewall scope, autostart and the console password yourself."@,
        ),
        Artifact::Client => (
            "Install into your profile with Start-menu shortcuts."@,
            "Choose whether a desktop shortcut is added."@,
        ),
    }
}

/// The welcome page. `removing` says that this is the uninstaller.
pub fn welcome_page(facts: &WinFacts, artifact: Artifact, removing: bool) -> (p: WelcomePage)
    ensures
        ({
            let fresh = !removing && facts.install_for(artifact) is None;
            &&& text::opt_string(p.subtitle) == subtitle_of(*facts, artifact)
            &&& p.sentence@ == sentence_of(removing, fresh, artifact)
            &&& p.buttons@ == buttons_of(removing, fresh)
            &&& p.options is Some == fresh
            &&& p.options matches Some(o) ==> o.0@ == ways_of(artifact).0 && o.1@ == ways_of(
                artifact,
            ).1
        }),
{
    let installed: &Option<Installed> = facts.installed_for(artifact);
    let fresh: bool = !removing && installed.is_none();
    let what: &str = match artifact {
        Artifact::Host => "host",
        Artifact::Client => "client",
    };
    let subtitle: Option<String> = match installed {
        None => None,
        Some(i) => {
            let head: String = match &i.version {
                Some(v) => v.clone().concat(" · "),
                None => "".to_owned(),
            };
            Some(head.concat(what).concat(" installed"))
        },
    };
    let mut buttons: Vec<WelcomeButton> = Vec::new();
    if removing {
        buttons.push(WelcomeButton::Uninstall);
    } else if !fresh {
        buttons.push(WelcomeButton::Uninstall);
        buttons.push(WelcomeButton::Reconfigure);
    } else {
        buttons.push(WelcomeButton::Go);
    }
    assert(buttons@ =~= buttons_of(removing, fresh));
    let sentence: &'static str = if removing {
        "This removes punktfunk from this PC. Identity, pairings and passwords stay — a reinstall picks them up."
    } else if !fresh {
        "Reconfigure keeps what is on this PC and applies your changes. Uninstall removes it — identity, pairings and passwords stay."
    } else {
        match artifact {
            Artifact::Host =>
                "This PC becomes the one you stream from: the punktfunk host sends its screen, audio and games to the devices you play on.",
            Artifact::Client =>
                "This PC becomes a device you play on: the punktfunk client shows the stream from the PC you stream from.",
        }
    };
    let options: Option<(&'static str, &'static str)> = if fresh {
        match artifact {
            Artifact::Host => Some(
                (
                    "The defaults: virtual display and gamepad drivers, the HDR layer, a tray icon, and the service starts right away. A web console password is generated for you.",
                    "Pick the drivers, Moonlight compatibility, firewall scope, autostart and the console password yourself.",
                ),
            ),
            Artifact::Client => Some(
                (
                    "Install into your profile with Start-menu shortcuts.",
                    "Choose whether a desktop shortcut is added.",
                ),
            ),
        }
    } else {
        None
    };
    WelcomePage { subtitle, sentence, buttons, options }
}

/// The run a button of the welcome page starts: to uninstall turns it to the removal, to
/// reconfigure puts the configuration on its path.
pub open spec fn pressed(run: Run, b: WelcomeButton) -> Run {
    match b {
        WelcomeButton::Uninstall => Run { uninstall: true, ..run },
        WelcomeButton::Reconfigure => Run { custom: true, ..run },
        WelcomeButton::Go => run,
    }
}

/// The run a button of the welcome page starts; the page then goes on from the welcome.
pub fn press(run: &Run, b: WelcomeButton) -> (r: Run)
    ensures
        r == pressed(*run, b),
{
    match b {
        WelcomeButton::Uninstall => Run { uninstall: true, ..*run },
        WelcomeButton::Reconfigure => Run { custom: true, ..*run },
        WelcomeButton::Go => *run,
    }
}

/// Which of the two ways to set up is chosen: the defaults, or to configure.
pub fn option_chosen(run: &Run, custom: bool) -> (r: bool)
    ensures
        r == (run.custom == custom),
{
    run.custom == custom
}

/// Where a section of the configuration stands.
#[derive(Clone, Copy, Debug, PartialEq, Eq, Structural)]
pub struct Placed {
    pub right: bool,
    /// The note on another streaming host leads the section.
    pub lead: bool,
}

/// Where the sections of the configuration stand: left and right in turn, the note leading the
/// network's.
pub fn configure_page(titles: &Vec<String>, coexistence: bool) -> (v: Vec<Placed>)
    ensures
        v@.len() == titles@.len(),
        forall|i: int|
            0 <= i < v@.len() ==> #[trigger] v@[i] == (Placed {
                right: i % 2 == 1,
                lead: coexistence && titles@[i]@ == "Network"@,
            }),
{
    let mut v: Vec<Placed> = Vec::new();
    let mut i: usize = 0;
    while i < titles.len()
        invariant
            i <= titles@.len(),
            v@.len() == i,
            forall|k: int|
                0 <= k < i ==> #[trigger] v@[k] == (Placed {
                    right: k % 2 == 1,
                    lead: coexistence && titles@[k]@ == "Network"@,
                }),
        decreases titles@.len() - i,
    {
        v.push(
            Placed {
                right: i % 2 == 1,
                lead: coexistence && text::same(titles[i].as_str(), "Network"),
            },
        );
        i = i + 1;
    }
    v
}

/// Whether a row of a section is divided from what stands above it: all but the first are.
pub fn divided(row: usize, lead: bool) -> (r: bool)
    ensures
        r == (row > 0 || lead),
{
    row > 0 || lead
}

/// Whether a fresh host's password is made up for it.
pub fn password_wanted(facts: &WinFacts, artifact: Artifact) -> (r: bool)
    ensures
        r == (artifact == Artifact::Host && facts.installed is None
            && !facts.web_password_present),
{
    artifact == Artifact::Host && facts.installed.is_none() && !facts.web_password_present
}

/// How a row is edited.
pub enum Editor {
    Toggle(bool),
    /// Unset keeps what the box has.
    TriState(Option<bool>),
    /// Unset leaves the bind as it is.
    Bind(Option<String>),
    Password(Option<String>),
}

/// The control of a row.
pub enum Control {
    Switch(bool),
    Combo { options: Vec<String>, selected: usize },
    /// A list and a box for an address, which can be written only where it counts.
    Bind { options: Vec<String>, selected: usize, typed: String, enabled: bool },
    Password { value: String, shown: bool, toggle: &'static str },
}

/// The control of a row.
#[verifier::ext_equal]
pub enum ControlView {
    Switch(bool),
    Combo { options: Seq<Seq<char>>, selected: usize },
    Bind { options: Seq<Seq<char>>, selected: usize, typed: Seq<char>, enabled: bool },
    Password { value: Seq<char>, shown: bool, toggle: Seq<char> },
}

impl View for Control {
    type V = ControlView;

    open spec fn view(&self) -> ControlView {
        match *self {
            Control::Switch(b) => ControlView::Switch(b),
            Control::Combo { options, selected } => ControlView::Combo {
                options: text::contents(options@),
                selected,
            },
            Control::Bind { options, selected, typed, enabled } => ControlView::Bind {
                options: text::contents(options@),
                selected,
                typed: typed@,
                enabled,
            },
            Control::Password { value, shown, toggle } => ControlView::Password {
                value: value@,
                shown,
                toggle: toggle@,
            },
        }
    }
}

/// The answer of the bind list that stands for a bind.
pub open spec fn bind_index(bind: Option<Seq<char>>) -> usize {
    match bind {
        None => 0,
        Some(b) => if b == LOOPBACK_BIND@ {
            1
        } else if b == LAN_BIND@ {
            2
        } else {
            3
        },
    }
}

/// The answers of the bind list.
pub open spec fn bind_options() -> Seq<Seq<char>> {
    Seq::<Seq<char>>::empty().push("Leave host.env alone"@).push("This PC only"@).push(
        "This local network"@,
    ).push("A specific address"@)
}

/// The answers of a list that may keep what the box has.
pub open spec fn tri_options() -> Seq<Seq<char>> {
    Seq::<Seq<char>>::empty().push("Keep the box's setting"@).push("On"@).push("Off"@)
}

/// The control an editor is drawn as.
pub open spec fn control_of(e: Editor, reveal: bool) -> ControlView {
    match e {
        Editor::Toggle(on) => ControlView::Switch(on),
        Editor::TriState(v) => ControlView::Combo {
            options: tri_options(),
            selected: match v {
                None => 0,
                Some(true) => 1,
                Some(false) => 2,
            },
        },
        Editor::Bind(v) => ControlView::Bind {
            options: bind_options(),
            selected: bind_index(text::opt_string(v)),
            typed: match v {
                Some(b) if bind_index(text::opt_string(v)) == 3 => b@,
                _ => ""@,
            },
            enabled: bind_index(text::opt_string(v)) == 3,
        },
        Editor::Password(v) => ControlView::Password {
            value: match v {
                Some(p) => p@,
                None => ""@,
            },
            shown: reveal,
            toggle: if reveal {
                "Hide"@
            } else {
                "Show"@
            },
        },
    }
}

/// The control of a row. Its password is shown only when that was asked for.
pub fn config_row(e: &Editor, reveal: bool) -> (c: Control)
    ensures
        c@ == control_of(*e, reveal),
{
    match e {
        Editor::Toggle(on) => Control::Switch(*on),
        Editor::TriState(v) => {
            let selected: usize = match *v {
                None => 0,
                Some(on) => if on {
                    1
                } else {
                    2
                },
            };
            Control::Combo {
                options: text::with_text(
                    text::with_text(
                        text::with_text(text::no_texts(), "Keep the box's setting"),
                        "On",
                    ),
                    "Off",
                ),
                selected,
            }
        },
        Editor::Bind(v) => {
            let selected: usize = match v {
                None => 0,
                Some(b) => if text::same(b.as_str(), LOOPBACK_BIND) {
                    1
                } else if text::same(b.as_str(), LAN_BIND) {
                    2
                } else {
                    3
                },
            };
            let typed: String = match v {
                Some(b) => if selected == 3 {
                    b.clone()
                } else {
                    "".to_owned()
                },
                None => "".to_owned(),
            };
            Control::Bind {
                options: text::with_text(
                    text::with_text(
                        text::with_text(
                            text::with_text(text::no_texts(), "Leave host.env alone"),
                            "This PC only",
                        ),
                        "This local network",
                    ),
                    "A specific address",
                ),
                selected,
                typed,
                enabled: selected == 3,
            }
        },
        Editor::Password(v) => {
            let value: String = match v {
                Some(p) => p.clone(),
                None => "".to_owned(),
            };
            let toggle: &'static str = if reveal {
                "Hide"
            } else {
                "Show"
            };
            Control::Password { value, shown: reveal, toggle }
        },
    }
}

/// Whether a row is too wide to stand beside its words.
pub fn stacked(e: &Editor) -> (r: bool)
    ensures
        r == (*e is Password || *e is Bind),
{
    match e {
        Editor::Password(_) => true,
        Editor::Bind(_) => true,
        _ => false,
    }
}

/// What an answer of the three-way list sets.
pub fn tri_answer(i: usize) -> (v: Option<bool>)
    ensures
        v == if i == 0 {
            None
        } else {
            Some(i == 1)
        },
{
    if i == 0 {
        None
    } else {
        Some(i == 1)
    }
}

/// What an answer of the bind list sets; the last waits for its address.
pub fn bind_answer(i: usize) -> (v: Option<String>)
    ensures
        text::opt_string(v) == if i == 0 {
            None
        } else if i == 1 {
            Some(LOOPBACK_BIND@)
        } else if i == 2 {
            Some(LAN_BIND@)
        } else {
            Some(""@)
        },
{
    if i == 0 {
        None
    } else if i == 1 {
        Some(LOOPBACK_BIND.to_owned())
    } else if i == 2 {
        Some(LAN_BIND.to_owned())
    } else {
        Some("".to_owned())
    }
}

/// The network page.
pub struct NetworkPage {
    pub name: String,
    pub heading: String,
    pub explanation: &'static str,
    pub options: Vec<String>,
    pub selected: usize,
}

/// The network the page is about: the one to make private, else the first public one.
pub open spec fn network_name(facts: WinFacts, answer: NetworkAnswer) -> Seq<char> {
    match answer {
        NetworkAnswer::MakePrivate(n) if n@.len() > 0 => n@,
        _ => if facts.public().len() > 0 {
            facts.public()[0]
        } else {
            "this network"@
        },
    }
}

fn name_of(facts: &WinFacts, answer: &NetworkAnswer) -> (s: String)
    ensures
        s@ == network_name(*facts, *answer),
{
    match answer {
        NetworkAnswer::MakePrivate(n) => {
            if !n.as_str().is_empty() {
                return n.clone();
            }
        },
        _ => {},
    }
    let public: Vec<String> = facts.public_networks();
    assert(text::contents(public@).len() == public@.len());
    if public.len() > 0 {
        assert(text::contents(public@)[0] == public@[0]@);
        public[0].clone()
    } else {
        "this network".to_owned()
    }
}

/// The network page: the recommended answer first.
pub fn network_page(facts: &WinFacts, answer: &NetworkAnswer) -> (p: NetworkPage)
    ensures
        p.name@ == network_name(*facts, *answer),
        p.explanation@ == NETWORK_WHY@,
        p.heading@ == "'"@ + network_name(*facts, *answer) + "' is set to Public"@,
        text::contents(p.options@) == Seq::<Seq<char>>::empty().push(
            "This is my home network — make '"@ + network_name(*facts, *answer)
                + "' Private (recommended)"@,
        ).push("Keep it Public, open the firewall for it"@).push("Skip — I'll fix it later"@),
        p.selected == match *answer {
            NetworkAnswer::MakePrivate(_) => 0int,
            NetworkAnswer::OpenPublicRules => 1,
            NetworkAnswer::Skip => 2,
        },
{
    let name: String = name_of(facts, answer);
    let first: String = "This is my home network — make '".to_owned().concat(
        name.as_str(),
    ).concat("' Private (recommended)");
    let selected: usize = match answer {
        NetworkAnswer::MakePrivate(_) => 0,
        NetworkAnswer::OpenPublicRules => 1,
        NetworkAnswer::Skip => 2,
    };
    let heading: String = "'".to_owned().concat(name.as_str()).concat("' is set to Public");
    NetworkPage {
        name,
        heading,
        explanation: NETWORK_WHY,
        options: text::with_text(
            text::with_text(
                text::with_text(text::no_texts(), first.as_str()),
                "Keep it Public, open the firewall for it",
            ),
            "Skip — I'll fix it later",
        ),
        selected,
    }
}

/// What an answer of the network page sets.
pub fn network_answer(i: usize, name: &str) -> (a: NetworkAnswer)
    ensures
        match a {
            NetworkAnswer::MakePrivate(n) => i == 0 && n@ == name@,
            NetworkAnswer::OpenPublicRules => i == 1,
            NetworkAnswer::Skip => i > 1,
        },
{
    if i == 0 {
        NetworkAnswer::MakePrivate(name.to_owned())
    } else if i == 1 {
        NetworkAnswer::OpenPublicRules
    } else {
        NetworkAnswer::Skip
    }
}

/// The password on the last page.
pub struct PasswordCard {
    pub title: &'static str,
    /// The password or its mask.
    pub shown: String,
    pub toggle: &'static str,
    pub copy: &'static str,
    pub stored: &'static str,
}

/// What to do next: what, why, and the link that does it.
pub struct NextStep {
    pub title: &'static str,
    pub detail: &'static str,
    pub link: &'static str,
    pub uri: String,
}

/// What to do next.
#[verifier::ext_equal]
pub struct NextView {
    pub title: Seq<char>,
    pub detail: Seq<char>,
    pub link: Seq<char>,
    pub uri: Seq<char>,
}

impl View for NextStep {
    type V = NextView;

    open spec fn view(&self) -> NextView {
        NextView { title: self.title@, detail: self.detail@, link: self.link@, uri: self.uri@ }
    }
}

/// The last page.
pub struct DonePage {
    pub headline: &'static str,
    /// What a removal keeps.
    pub kept: Option<&'static str>,
    pub password: Option<PasswordCard>,
    pub next: Vec<NextStep>,
    pub footnotes: Vec<String>,
    /// Where help is, unless this was a removal.
    pub help: Option<String>,
}

/// The last page's headline.
pub open spec fn headline_of(uninstall: bool, artifact: Artifact, fresh: bool) -> Seq<char> {
    if uninstall {
        "punktfunk was removed from this PC."@
    } else {
        match artifact {
            Artifact::Host => if fresh {
                "The punktfunk host is installed and streaming."@
            } else {
                "The punktfunk host is up to date."@
            },
            Artifact::Client => if fresh {
                "The punktfunk client is installed."@
            } else {
                "The punktfunk client is up to date."@
            },
        }
    }
}

fn headline(uninstall: bool, artifact: Artifact, fresh: bool) -> (s: &'static str)
    ensures
        s@ == headline_of(uninstall, artifact, fresh),
{
    if uninstall {
        "punktfunk was removed from this PC."
    } else {
        match artifact {
            Artifact::Host => if fresh {
                "The punktfunk host is installed and streaming."
            } else {
                "The punktfunk host is up to date."
            },
            Artifact::Client => if fresh {
                "The punktfunk client is installed."
            } else {
                "The punktfunk client is up to date."
            },
        }
    }
}

/// What to do next, first and second.
pub open spec fn next_of(artifact: Artifact) -> Seq<NextView> {
    match artifact {
        Artifact::Host => Seq::<NextView>::empty().push(
            NextView {
                title: "Open the web console"@,
                detail:
                    "Approve devices, pick what to stream, change settings. The certificate is the host's own — continue past the browser's warning."@,
                link: "https://localhost:47992"@,
                uri: "https://localhost:47992/"@,
            },
        ).push(
            NextView {
                title: "Install a client"@,
                detail:
                    "On the device you play on — Windows, macOS, iOS, Android, Linux, Steam Deck — then connect and press Approve in the console."@,
                link: "Client downloads"@,
                uri: DOCS@ + "/install-client"@,
            },
        ),
        Artifact::Client => Seq::<NextView>::empty().push(
            NextView {
                title: "Open Punktfunk"@,
                detail:
                    "It is in the Start menu. Pick your host from the list, or add one by address."@,
                link: "Pairing help"@,
                uri: DOCS@ + "/pairing"@,
            },
        ).push(
            NextView {
                title: "No host yet?"@,
                detail: "Install the punktfunk host on the PC you stream from."@,
                link: "Host install guide"@,
                uri: DOCS@ + "/windows-host"@,
            },
        ),
    }
}

pub open spec fn next_views(v: Seq<NextStep>) -> Seq<NextView> {
    v.map_values(|n: NextStep| n@)
}

fn next_steps(artifact: Artifact) -> (v: Vec<NextStep>)
    ensures
        next_views(v@) == next_of(artifact),
{
    let mut v: Vec<NextStep> = Vec::new();
    match artifact {
        Artifact::Host => {
            v.push(
                NextStep {
                    title: "Open the web console",
                    detail:
                        "Approve devices, pick what to stream, change settings. The certificate is the host's own — continue past the browser's warning.",
                    link: "https://localhost:47992",
                    uri: "https://localhost:47992/".to_owned(),
                },
            );
            v.push(
                NextStep {
                    title: "Install a client",
                    detail:
                        "On the device you play on — Windows, macOS, iOS, Android, Linux, Steam Deck — then connect and press Approve in the console.",
                    link: "Client downloads",
                    uri: DOCS.to_owned().concat("/install-client"),
                },
            );
        },
        Artifact::Client => {
            v.push(
                NextStep {
                    title: "Open Punktfunk",
                    detail:
                        "It is in the Start menu. Pick your host from the list, or add one by address.",
                    link: "Pairing help",
                    uri: DOCS.to_owned().concat("/pairing"),
                },
            );
            v.push(
                NextStep {
                    title: "No host yet?",
                    detail: "Install the punktfunk host on the PC you stream from.",
                    link: "Host install guide",
                    uri: DOCS.to_owned().concat("/windows-host"),
                },
            );
        },
    }
    assert(next_views(v@) =~= next_of(artifact));
    v
}

/// The words of what was said, each without the blanks at its ends; a blank line says nothing.
pub open spec fn footnote_texts(s: Seq<ui::ToldView>) -> Seq<Seq<char>>
    decreases s.len(),
{
    if s.len() == 0 {
        Seq::empty()
    } else {
        let rest = footnote_texts(s.drop_last());
        match s.last() {
            ui::ToldView::Blank => rest,
            ui::ToldView::Say(t) => rest.push(text::trimmed(t, Sep::Space)),
            ui::ToldView::Fine(t) => rest.push(text::trimmed(t, Sep::Space)),
            ui::ToldView::Warn(t) => rest.push(text::trimmed(t, Sep::Space)),
            ui::ToldView::Plus(t) => rest.push(text::trimmed(t, Sep::Space)),
            ui::ToldView::Detail(t) => rest.push(text::trimmed(t, Sep::Space)),
            ui::ToldView::Line(t) => rest.push(text::trimmed(t, Sep::Space)),
        }
    }
}

fn collect(told: &Vec<Told>) -> (out: Vec<String>)
    ensures
        text::contents(out@) == footnote_texts(ui::told_views(told@)),
{
    let ghost all = ui::told_views(told@);
    let mut out: Vec<String> = text::no_texts();
    let mut i: usize = 0;
    assert(all.take(0) =~= Seq::<ui::ToldView>::empty());
    while i < told.len()
        invariant
            i <= told@.len(),
            all == ui::told_views(told@),
            text::contents(out@) == footnote_texts(all.take(i as int)),
        decreases told@.len() - i,
    {
        proof {
            assert(all.take(i + 1).drop_last() =~= all.take(i as int));
            assert(all.take(i + 1).last() == told@[i as int]@);
        }
        let t: Option<&str> = match &told[i] {
            Told::Blank => None,
            Told::Say(t) => Some(t.as_str()),
            Told::Fine(t) => Some(t.as_str()),
            Told::Warn(t) => Some(t.as_str()),
            Told::Plus(t) => Some(t.as_str()),
            Told::Detail(t) => Some(t.as_str()),
            Told::Line(t) => Some(t.as_str()),
        };
        match t {
            Some(t) => {
                out = text::with_text(out, text::trim(t, Sep::Space));
            },
            None => {},
        }
        i = i + 1;
    }
    assert(all.take(i as int) =~= all);
    out
}

/// The password card stands on a fresh host's last page.
pub open spec fn shows_password(run: Run, fresh: bool, choices: WinChoices) -> bool {
    !run.uninstall && run.artifact == Artifact::Host && fresh && choices.web_password is Some
}

/// The last page. A fresh host shows its password, masked until asked for: the page can stay on a
/// screen for a while. `effective` are the choices the run was planned with.
pub fn done_page(
    run: &Run,
    fresh: bool,
    facts: &WinFacts,
    choices: &WinChoices,
    effective: &WinChoices,
    reveal: bool,
    copied: bool,
) -> (p: DonePage)
    ensures
        p.headline@ == headline_of(run.uninstall, run.artifact, fresh),
        text::opt_view(p.kept) == if run.uninstall {
            Some(
                "Kept on purpose: %ProgramData%\\punktfunk (identity, passwords, update cache) — a reinstall picks it up."@,
            )
        } else {
            None
        },
        p.password is Some == shows_password(*run, fresh, *choices),
        p.password matches Some(c) ==> {
            &&& c.title@ == "Your web console password"@
            &&& c.stored@ == PASSWORD_WHERE@
            &&& c.shown@ == (if reveal {
                choices.web_password->0@
            } else {
                PASSWORD_MASK@
            })
            &&& c.toggle@ == (if reveal {
                "Hide"@
            } else {
                "Show"@
            })
            &&& c.copy@ == (if copied {
                "Copied"@
            } else {
                "Copy"@
            })
        },
        next_views(p.next@) == if run.uninstall {
            Seq::empty()
        } else {
            next_of(run.artifact)
        },
        text::contents(p.footnotes@) == if run.uninstall {
            Seq::empty()
        } else {
            footnote_texts(report::and_footnotes(Seq::empty(), *facts, *effective))
        },
        text::opt_string(p.help) == if run.uninstall {
            None
        } else {
            Some(DOCS@ + "/troubleshooting"@)
        },
{
    let headline: &'static str = headline(run.uninstall, run.artifact, fresh);
    if run.uninstall {
        let next: Vec<NextStep> = Vec::new();
        assert(next_views(next@) =~= Seq::<NextView>::empty());
        return DonePage {
            headline,
            kept: Some(
                "Kept on purpose: %ProgramData%\\punktfunk (identity, passwords, update cache) — a reinstall picks it up.",
            ),
            password: None,
            next,
            footnotes: text::no_texts(),
            help: None,
        };
    }
    let password: Option<PasswordCard> = match &choices.web_password {
        Some(pw) => if run.artifact == Artifact::Host && fresh {
            let shown: String = if reveal {
                pw.clone()
            } else {
                PASSWORD_MASK.to_owned()
            };
            let toggle: &'static str = if reveal {
                "Hide"
            } else {
                "Show"
            };
            let copy: &'static str = if copied {
                "Copied"
            } else {
                "Copy"
            };
            Some(
                PasswordCard {
                    title: "Your web console password",
                    shown,
                    toggle,
                    copy,
                    stored: PASSWORD_WHERE,
                },
            )
        } else {
            None
        },
        None => None,
    };
    DonePage {
        headline,
        kept: None,
        password,
        next: next_steps(run.artifact),
        footnotes: collect(&report::footnotes(facts, effective)),
        help: Some(DOCS.to_owned().concat("/troubleshooting")),
    }
}

/// An install is started once: whatever is pressed while one runs or after it ended, none starts.
pub proof fn an_install_starts_once(
    path: Seq<WizStep>,
    cur: WizStep,
    install: InstallPhase,
    skipping: bool,
)
    requires
        install != InstallPhase::Idle,
    ensures
        !advance_of(path, cur, install, skipping).start,
{
}

/// Going back undoes going on, on a path that names no step twice.
pub proof fn back_undoes_advance(
    path: Seq<WizStep>,
    cur: WizStep,
    install: InstallPhase,
    skipping: bool,
)
    requires
        path.no_duplicates(),
        step_after(path, cur) is Some,
        advance_of(path, cur, install, skipping).to is Some,
    ensures
        back_of(path, advance_of(path, cur, install, skipping).to->0.step) == Some(
            Nav { step: cur, forward: false },
        ),
{
    let i = place_of(path, cur, 0);
    lemma_place(path, cur, 0);
    lemma_place_is(path, path[i + 1], 0, i + 1);
}

proof fn lemma_place(path: Seq<WizStep>, cur: WizStep, k: int)
    requires
        0 <= k <= path.len(),
    ensures
        k <= place_of(path, cur, k) <= path.len(),
        place_of(path, cur, k) < path.len() ==> path[place_of(path, cur, k)] == cur,
    decreases path.len() - k,
{
    if k < path.len() && path[k] != cur {
        lemma_place(path, cur, k + 1);
    }
}

proof fn lemma_place_is(path: Seq<WizStep>, cur: WizStep, k: int, at: int)
    requires
        path.no_duplicates(),
        0 <= k <= at < path.len(),
        path[at] == cur,
    ensures
        place_of(path, cur, k) == at,
    decreases at - k,
{
    if k < at {
        lemma_place_is(path, cur, k + 1, at);
    }
}

/// An uninstall never passes the configuration or the network.
pub proof fn an_uninstall_only_removes(run: Run, steps: Seq<WizStep>, i: int)
    requires
        run.uninstall,
        0 <= i < path_of(run, steps).len(),
    ensures
        path_of(run, steps)[i] != WizStep::Configure,
        path_of(run, steps)[i] != WizStep::Network,
{
}

/// A removal goes straight to its end. Any other run takes the box's steps one by one, in their
/// order, and leaves out the configuration unless it was asked for.
pub proof fn a_path_is_taken_step_by_step(
    run: &Run,
    steps: &Vec<WizStep>,
    out: Vec<WizStep>,
    more: &Vec<WizStep>,
    out_more: Vec<WizStep>,
    s: WizStep,
)
    requires
        call_ensures(run_steps, (run, steps), out),
        call_ensures(run_steps, (run, more), out_more),
        more@ == steps@.push(s),
    ensures
        run.uninstall ==> out@ == seq![WizStep::Welcome, WizStep::Install, WizStep::Done],
        !run.uninstall && steps@.len() == 0 ==> out@.len() == 0,
        !run.uninstall && (run.custom || s != WizStep::Configure) ==> out_more@ == out@.push(s),
        !run.uninstall && !run.custom && s == WizStep::Configure ==> out_more@ == out@,
{
    reveal(Seq::filter);
    assert(more@.drop_last() =~= steps@);
    assert(more@.last() == s);
    if run.uninstall {
        assert(out@ =~= seq![WizStep::Welcome, WizStep::Install, WizStep::Done]);
    }
}

/// Going on leads to the next step of the path and starts the install exactly where that is it;
/// while an install runs or has ended it leads nowhere. The label says what it will do, going
/// back leads to where it came from, and the stepper stands where the page does.
pub proof fn the_next_step_is_the_next_on_the_path(
    path: &Vec<WizStep>,
    i: int,
    cur: WizStep,
    next: WizStep,
    install: InstallPhase,
    skipping: bool,
    a: Advance,
    label: &'static str,
    back_to: Option<Nav>,
    at: usize,
)
    requires
        path@.no_duplicates(),
        0 <= i,
        i + 1 < path@.len(),
        cur == path@[i],
        next == path@[i + 1],
        call_ensures(advance, (path, cur, install, skipping), a),
        call_ensures(go_label, (path, cur), label),
        call_ensures(back, (path, next), back_to),
        call_ensures(stepper_at, (path, next), at),
    ensures
        next == WizStep::Install && install != InstallPhase::Idle ==> a.to is None && !a.start
            && !a.recommend_private,
        next != WizStep::Install || install == InstallPhase::Idle ==> a.to == Some(
            Nav { step: next, forward: true },
        ) && a.start == (next == WizStep::Install) && a.recommend_private == (next
            == WizStep::Network && skipping),
        label@ == if next == WizStep::Install {
            "Install"@
        } else {
            "Continue"@
        },
        back_to == Some(Nav { step: cur, forward: false }),
        at == i + 1,
{
    lemma_place_is(path@, cur, 0, i);
    lemma_place_is(path@, next, 0, i + 1);
}

/// The ends of a path: nothing comes before the first step, and the last leads to the end.
pub proof fn a_path_has_two_ends(
    path: &Vec<WizStep>,
    first: WizStep,
    last: WizStep,
    skipping: bool,
    a: Advance,
    back_to: Option<Nav>,
    at: usize,
)
    requires
        path@.no_duplicates(),
        path@.len() > 0,
        first == path@[0],
        last == path@.last(),
        call_ensures(advance, (path, last, InstallPhase::Finished, skipping), a),
        call_ensures(back, (path, first), back_to),
        call_ensures(stepper_at, (path, first), at),
    ensures
        a.to == Some(Nav { step: WizStep::Done, forward: true }) && !a.start,
        back_to is None,
        at == 0,
{
    lemma_place_is(path@, first, 0, 0);
    lemma_place_is(path@, last, 0, path@.len() - 1);
}

/// Each step goes by its own name, and the install of a removal by what it does.
pub proof fn a_step_goes_by_its_name(step: WizStep, uninstall: bool, s: &'static str)
    requires
        call_ensures(step_title, (step, uninstall), s),
    ensures
        step == WizStep::Welcome ==> s@ == "Welcome"@,
        step == WizStep::Configure ==> s@ == "Configure"@,
        step == WizStep::Network ==> s@ == "Network"@,
        step == WizStep::Install && !uninstall ==> s@ == "Install"@,
        step == WizStep::Install && uninstall ==> s@ == "Uninstall"@,
        step == WizStep::Done ==> s@ == "Done"@,
{
}

/// The stepper is filled up to the page and hollow behind it, its lines join where dots meet, and
/// it has no line beyond its ends.
pub proof fn the_stepper_is_filled_to_the_page(n: usize, pos: usize, v: Vec<Dot>, i: int)
    requires
        call_ensures(stepper, (n, pos), v),
        0 <= i < n,
    ensures
        v@.len() == n,
        v@[i].current <==> i == pos,
        v@[i].filled <==> i < pos || v@[i].current,
        v@[i].left_hidden <==> i == 0,
        v@[i].right_hidden <==> i == n - 1,
        i + 1 < n ==> v@[i].right_lit == v@[i + 1].left_lit && v@[i].right_lit == v@[i + 1].filled,
        i == 0 ==> !v@[i].left_lit,
{
    if i + 1 < n {
        assert(v@[i + 1] == dot_of(i + 1, n as int, pos as int));
    }
}

/// The bar is empty before the install and full after it. While it runs, a heading more moves it
/// by one phase, half a phase short of the headings seen, so that it is full only at the end.
pub proof fn the_bar_moves_with_the_headings(
    seen: u32,
    phases: u32,
    idle: Share,
    done: Share,
    now: Share,
    later: Share,
    failed: Share,
)
    requires
        seen < u32::MAX,
        call_ensures(bar_target, (InstallPhase::Idle, seen, phases), idle),
        call_ensures(bar_target, (InstallPhase::Finished, seen, phases), done),
        call_ensures(bar_target, (InstallPhase::Running, seen, phases), now),
        call_ensures(bar_target, (InstallPhase::Running, (seen + 1) as u32, phases), later),
        call_ensures(bar_target, (InstallPhase::Failed, seen, phases), failed),
    ensures
        idle.part == 0,
        done.part == done.whole,
        phases > 0 ==> now.whole == 2 * phases,
        phases == 0 ==> now.whole == 2,
        idle.whole == now.whole && done.whole == now.whole && later.whole == now.whole,
        seen == 0 ==> now.part == 0 && later.part == 1,
        seen > 0 ==> later.part == now.part + 2,
        seen <= phases ==> now.part < now.whole,
        failed == now,
{
}

proof fn lemma_headings_front(a: Seq<LogLine>, b: Seq<LogLine>, n: int)
    requires
        0 <= n <= a.len(),
        n <= b.len(),
        forall|i: int| 0 <= i < n ==> #[trigger] a[i] == b[i],
    ensures
        headings(a, n) == headings(b, n),
    decreases n,
{
    if n > 0 {
        lemma_headings_front(a, b, n - 1);
        assert(a[n - 1] == b[n - 1]);
    }
}

/// A line more is a phase more exactly where it is a heading, and a heading is what was said as
/// one.
pub proof fn headings_are_counted(
    log: &Vec<LogLine>,
    more: &Vec<LogLine>,
    n: usize,
    m: usize,
    t: &Told,
    l: LogLine,
)
    requires
        call_ensures(log_line, (t,), l),
        more@ == log@.push(l),
        call_ensures(phases_seen, (log,), n),
        call_ensures(phases_seen, (more,), m),
    ensures
        log@.len() == 0 ==> n == 0,
        *t is Say ==> m == n + 1,
        !(*t is Say) ==> m == n,
{
    lemma_headings_front(log@, more@, log@.len() as int);
    assert(more@[log@.len() as int] == l);
}

/// Each line is shown with the mark of what it is, and its words are those that were said.
pub proof fn a_line_is_shown_with_its_mark(
    t: &Told,
    l: &LogLine,
    made: LogLine,
    s: String,
    msg: &str,
    f: &LogLine,
    failed: LogLine,
    shown: String,
)
    requires
        call_ensures(log_line, (t,), made),
        *l == made,
        call_ensures(install_line, (l,), s),
        call_ensures(fail_line, (msg,), failed),
        *f == failed,
        call_ensures(install_line, (f,), shown),
    ensures
        t@ matches ui::ToldView::Say(m) ==> s@ == m,
        t@ matches ui::ToldView::Fine(m) ==> s@ == "✓ "@ + m,
        t@ matches ui::ToldView::Warn(m) ==> s@ == "⚠ "@ + m,
        t@ matches ui::ToldView::Plus(m) ==> s@ == "  + "@ + m,
        t@ matches ui::ToldView::Detail(m) ==> s@ == "  "@ + m,
        t@ matches ui::ToldView::Line(m) ==> s@ == m,
        t@ is Blank ==> s@ == ""@,
        shown@ == "✗ "@ + msg@,
        made.kind != LineKind::Fail && failed.kind == LineKind::Fail,
{
}

/// A page can be closed only once its run has failed, and turns only while it runs; an install
/// that succeeded leads to the end, one that failed stays.
pub proof fn a_run_is_not_left_halfway(
    run: &Run,
    p: InstallPage,
    well: (InstallPhase, Option<Nav>),
    ill: (InstallPhase, Option<Nav>),
)
    requires
        call_ensures(install_page, (run,), p),
        call_ensures(install_ended, (true,), well),
        call_ensures(install_ended, (false,), ill),
    ensures
        run.install == InstallPhase::Running ==> p.turning && !p.closable,
        run.install == InstallPhase::Failed ==> !p.turning && p.closable && p.status@
            == "Something went wrong — the log below has the step."@,
        run.install == InstallPhase::Idle || run.install == InstallPhase::Finished ==> !p.turning
            && !p.closable,
        run.install != InstallPhase::Failed && run.uninstall ==> p.status@
            == "Removing punktfunk…"@,
        run.install != InstallPhase::Failed && !run.uninstall ==> p.status@
            == "Installing punktfunk…"@,
        well.0 == InstallPhase::Finished && well.1 == Some(
            Nav { step: WizStep::Done, forward: true },
        ),
        ill.0 == InstallPhase::Failed && ill.1 is None,
{
}

/// The uninstaller offers the removal alone, a box with an install to change or to remove it, and
/// a fresh one to go on; only there are the two ways to set up offered.
pub proof fn a_welcome_offers_what_can_be_done(
    facts: &WinFacts,
    artifact: Artifact,
    removing: bool,
    p: WelcomePage,
)
    requires
        call_ensures(welcome_page, (facts, artifact, removing), p),
    ensures
        ({
            let here = match artifact {
                Artifact::Host => facts.installed,
                Artifact::Client => facts.client_installed,
            };
            &&& removing ==> p.buttons@ == seq![WelcomeButton::Uninstall]
            &&& !removing && here is Some ==> p.buttons@ == seq![
                WelcomeButton::Uninstall,
                WelcomeButton::Reconfigure,
            ]
            &&& !removing && here is None ==> p.buttons@ == seq![WelcomeButton::Go]
            &&& p.options is Some <==> !removing && here is None
            &&& p.subtitle is Some <==> here is Some
            &&& here matches Some(i) ==> p.subtitle->0@ == (if i.version is Some {
                i.version->0@ + " · "@
            } else {
                ""@
            }) + (if artifact == Artifact::Host {
                "host"@
            } else {
                "client"@
            }) + " installed"@
        }),
{
    let s = text::opt_string(p.subtitle);
    assert(s == subtitle_of(*facts, artifact));
}

/// What the two ways to set up say on a page.
pub open spec fn ways_shown(p: WelcomePage) -> (Seq<char>, Seq<char>) {
    match p.options {
        Some(o) => (o.0@, o.1@),
        None => (Seq::empty(), Seq::empty()),
    }
}

/// What a welcome says: what a removal keeps, what a change does, and on a fresh box what the PC
/// becomes and what the two ways to set up bring.
pub proof fn a_welcome_says_what_it_does(
    facts: &WinFacts,
    artifact: Artifact,
    removing: bool,
    p: WelcomePage,
)
    requires
        call_ensures(welcome_page, (facts, artifact, removing), p),
    ensures
        ({
            let here = match artifact {
                Artifact::Host => facts.installed,
                Artifact::Client => facts.client_installed,
            };
            &&& removing ==> p.sentence@
                == "This removes punktfunk from this PC. Identity, pairings and passwords stay — a reinstall picks them up."@
            &&& !removing && here is Some ==> p.sentence@
                == "Reconfigure keeps what is on this PC and applies your changes. Uninstall removes it — identity, pairings and passwords stay."@
            &&& !removing && here is None && artifact == Artifact::Host ==> p.sentence@
                == "This PC becomes the one you stream from: the punktfunk host sends its screen, audio and games to the devices you play on."@
                && ways_shown(p).0
                == "The defaults: virtual display and gamepad drivers, the HDR layer, a tray icon, and the service starts right away. A web console password is generated for you."@
                && ways_shown(p).1
                == "Pick the drivers, Moonlight compatibility, firewall scope, autostart and the console password yourself."@
            &&& !removing && here is None && artifact == Artifact::Client ==> p.sentence@
                == "This PC becomes a device you play on: the punktfunk client shows the stream from the PC you stream from."@
        }),
{
}

/// A button turns only what it says: to uninstall makes the run a removal, to reconfigure puts
/// the configuration on its path, and to go on leaves it.
pub proof fn a_button_turns_what_it_says(
    run: &Run,
    off: Run,
    change: Run,
    go: Run,
    custom: bool,
    chosen: bool,
    other: bool,
)
    requires
        call_ensures(press, (run, WelcomeButton::Uninstall), off),
        call_ensures(press, (run, WelcomeButton::Reconfigure), change),
        call_ensures(press, (run, WelcomeButton::Go), go),
        call_ensures(option_chosen, (run, custom), chosen),
        call_ensures(option_chosen, (run, !custom), other),
    ensures
        off.uninstall && off.custom == run.custom && off.artifact == run.artifact && off.install
            == run.install,
        change.custom && change.uninstall == run.uninstall && change.artifact == run.artifact
            && change.install == run.install,
        go == *run,
        chosen == !other,
        custom == run.custom ==> chosen,
{
}

/// Sections stand left and right in turn from the left, the note leads the network's alone, and
/// every row but the very first of a section is divided from what is above it.
pub proof fn sections_stand_in_turn(
    titles: &Vec<String>,
    coexistence: bool,
    v: Vec<Placed>,
    i: int,
    row: usize,
    lead: bool,
    d: bool,
)
    requires
        call_ensures(configure_page, (titles, coexistence), v),
        0 <= i < titles@.len(),
        call_ensures(divided, (row, lead), d),
    ensures
        v@.len() == titles@.len(),
        !v@[0].right,
        i + 1 < titles@.len() ==> v@[i].right != v@[i + 1].right,
        v@[i].lead <==> coexistence && titles@[i]@ == "Network"@,
        !d <==> row == 0 && !lead,
{
    assert(v@[0] == v@[0]);
    if i + 1 < titles@.len() {
        assert(v@[i + 1] == v@[i + 1]);
    }
    assert(v@[i] == v@[i]);
}

/// A password is made up for a fresh host alone, and never over one that is there.
pub proof fn a_password_is_for_a_fresh_host(facts: &WinFacts, host: bool, client: bool)
    requires
        call_ensures(password_wanted, (facts, Artifact::Host), host),
        call_ensures(password_wanted, (facts, Artifact::Client), client),
    ensures
        !client,
        host ==> facts.installed is None && !facts.web_password_present,
        facts.installed is None && !facts.web_password_present ==> host,
{
}

/// A list opens on the answer that is in force: what it answers there is what was set.
pub proof fn a_list_opens_on_what_is_set(
    tri: Option<bool>,
    bind: &Editor,
    e: &Editor,
    reveal: bool,
    c: Control,
    b: Control,
    i: usize,
    j: usize,
    t: Option<bool>,
    a: Option<String>,
)
    requires
        *e == Editor::TriState(tri),
        *bind is Bind,
        call_ensures(config_row, (e, reveal), c),
        call_ensures(config_row, (bind, reveal), b),
        c matches Control::Combo { selected, .. } ==> i == selected,
        b matches Control::Bind { selected, .. } ==> j == selected,
        call_ensures(tri_answer, (i,), t),
        call_ensures(bind_answer, (j,), a),
    ensures
        c is Combo && t == tri,
        b is Bind,
        b->Bind_enabled ==> bind->Bind_0 is Some && b->Bind_typed@ == bind->Bind_0->0@,
        !b->Bind_enabled ==> text::opt_string(a) == text::opt_string(bind->Bind_0)
            && b->Bind_typed@ == ""@,
        bind->Bind_0 is None ==> !b->Bind_enabled,
        bind->Bind_0 matches Some(x) ==> b->Bind_enabled == (x@ != "127.0.0.1"@ && x@
            != "0.0.0.0"@),
{
    assert(c@ == control_of(*e, reveal));
    assert(b@ == control_of(*bind, reveal));
}

/// The lists hold their answers in the order they are answered by.
pub proof fn answers_stand_in_their_order(
    e: &Editor,
    bind: &Editor,
    reveal: bool,
    c: Control,
    b: Control,
    leave: Option<String>,
    here: Option<String>,
    lan: Option<String>,
    typed: Option<String>,
    keep: Option<bool>,
    on: Option<bool>,
    off: Option<bool>,
)
    requires
        *e is TriState,
        *bind is Bind,
        call_ensures(config_row, (e, reveal), c),
        call_ensures(config_row, (bind, reveal), b),
        call_ensures(bind_answer, (0,), leave),
        call_ensures(bind_answer, (1,), here),
        call_ensures(bind_answer, (2,), lan),
        call_ensures(bind_answer, (3,), typed),
        call_ensures(tri_answer, (0,), keep),
        call_ensures(tri_answer, (1,), on),
        call_ensures(tri_answer, (2,), off),
    ensures
        c is Combo && b is Bind,
        text::contents(c->Combo_options@) == seq!["Keep the box's setting"@, "On"@, "Off"@],
        keep is None && on == Some(true) && off == Some(false),
        text::contents(b->Bind_options@) == seq![
            "Leave host.env alone"@,
            "This PC only"@,
            "This local network"@,
            "A specific address"@,
        ],
        leave is None,
        here is Some && here->0@ == "127.0.0.1"@,
        lan is Some && lan->0@ == "0.0.0.0"@,
        typed is Some && typed->0@ == ""@,
{
    assert(c@ == control_of(*e, reveal));
    assert(b@ == control_of(*bind, reveal));
    assert(tri_options() =~= seq!["Keep the box's setting"@, "On"@, "Off"@]);
    assert(bind_options() =~= seq![
        "Leave host.env alone"@,
        "This PC only"@,
        "This local network"@,
        "A specific address"@,
    ]);
    assert(text::opt_string(leave) is None);
    assert(text::opt_string(here) == Some("127.0.0.1"@));
    assert(text::opt_string(lan) == Some("0.0.0.0"@));
    assert(text::opt_string(typed) == Some(""@));
}

/// A switch shows what is set, and a password stays covered until it is asked for; the wide rows
/// stand below their words.
pub proof fn a_password_stays_covered(
    e: &Editor,
    reveal: bool,
    c: Control,
    wide: bool,
)
    requires
        call_ensures(config_row, (e, reveal), c),
        call_ensures(stacked, (e,), wide),
    ensures
        *e matches Editor::Toggle(on) ==> c == Control::Switch(on),
        *e matches Editor::Password(v) ==> c is Password && c->Password_shown == reveal
            && c->Password_value@ == (if v is Some {
            v->0@
        } else {
            ""@
        }) && c->Password_toggle@ == (if reveal {
            "Hide"@
        } else {
            "Show"@
        }),
        wide <==> *e is Password || *e is Bind,
{
    assert(c@ == control_of(*e, reveal));
}

/// The network page opens on the answer in force, and answering there gives it again, about the
/// network that the page names.
pub proof fn the_network_page_keeps_its_answer(
    facts: &WinFacts,
    answer: &NetworkAnswer,
    p: NetworkPage,
    i: usize,
    name: &str,
    a: NetworkAnswer,
    r: NetworkAnswer,
    public: Vec<String>,
)
    requires
        call_ensures(network_page, (facts, answer), p),
        i == p.selected,
        name@ == p.name@,
        call_ensures(network_answer, (i, name), a),
        call_ensures(recommended_network, (facts,), r),
        call_ensures(WinFacts::public_networks, (facts,), public),
    ensures
        *answer is MakePrivate <==> a is MakePrivate,
        *answer is OpenPublicRules <==> a is OpenPublicRules,
        *answer is Skip <==> a is Skip,
        *answer matches NetworkAnswer::MakePrivate(n) ==> n@.len() > 0 ==> p.name@ == n@,
        a matches NetworkAnswer::MakePrivate(n) ==> n@ == p.name@,
        !(*answer is MakePrivate) && public@.len() > 0 ==> p.name@ == public@[0]@,
        !(*answer is MakePrivate) && public@.len() == 0 ==> p.name@ == "this network"@,
        p.heading@ == "'"@ + p.name@ + "' is set to Public"@,
        p.options@.len() == 3,
        p.options@[0]@ == "This is my home network — make '"@ + p.name@
            + "' Private (recommended)"@,
        p.options@[1]@ == "Keep it Public, open the firewall for it"@,
        p.options@[2]@ == "Skip — I'll fix it later"@,
        r is MakePrivate,
        public@.len() > 0 ==> r->MakePrivate_0@ == public@[0]@,
        public@.len() == 0 ==> r->MakePrivate_0@ == ""@,
{
    let o = text::contents(p.options@);
    assert(o.len() == p.options@.len());
    assert(o[0] == p.options@[0]@ && o[1] == p.options@[1]@ && o[2] == p.options@[2]@);
    let names = text::contents(public@);
    assert(names.len() == public@.len());
    if public@.len() > 0 {
        assert(names[0] == public@[0]@);
    }
}

/// The password is on the last page of a fresh host alone, covered by a mask of a fixed length
/// until it is asked for; the mask does not depend on the password.
pub proof fn the_last_page_covers_the_password(
    run: &Run,
    fresh: bool,
    facts: &WinFacts,
    c: &WinChoices,
    effective: &WinChoices,
    copied: bool,
    shut: DonePage,
    open: DonePage,
)
    requires
        call_ensures(done_page, (run, fresh, facts, c, effective, false, copied), shut),
        call_ensures(done_page, (run, fresh, facts, c, effective, true, copied), open),
    ensures
        shut.password is Some <==> !run.uninstall && run.artifact == Artifact::Host && fresh
            && c.web_password is Some,
        shut.password is Some <==> open.password is Some,
        shut.password is Some ==> shut.password->0.shown@ == "••••••••••••"@
            && shut.password->0.toggle@ == "Show"@ && open.password->0.shown@
            == c.web_password->0@ && open.password->0.toggle@ == "Hide"@,
        shut.password is Some ==> shut.password->0.copy@ == (if copied {
            "Copied"@
        } else {
            "Copy"@
        }),
{
}

/// The last page says what became of the run: a removal what it kept and nothing to do next, an
/// install its two next steps, the notes of the run and where help is.
pub proof fn the_last_page_says_what_became(
    run: &Run,
    fresh: bool,
    facts: &WinFacts,
    c: &WinChoices,
    effective: &WinChoices,
    reveal: bool,
    copied: bool,
    p: DonePage,
    notes: Vec<Told>,
)
    requires
        call_ensures(done_page, (run, fresh, facts, c, effective, reveal, copied), p),
        call_ensures(report::footnotes, (facts, effective), notes),
    ensures
        run.uninstall ==> p.headline@ == "punktfunk was removed from this PC."@ && p.kept is Some
            && p.next@.len() == 0 && p.footnotes@.len() == 0 && p.help is None,
        !run.uninstall ==> p.kept is None && p.next@.len() == 2 && p.help is Some && p.help->0@
            == DOCS@ + "/troubleshooting"@,
        !run.uninstall && run.artifact == Artifact::Host ==> p.headline@ == (if fresh {
            "The punktfunk host is installed and streaming."@
        } else {
            "The punktfunk host is up to date."@
        }) && p.next@[0].uri@ == "https://localhost:47992/"@ && p.next@[1].uri@ == DOCS@
            + "/install-client"@,
        !run.uninstall && run.artifact == Artifact::Client ==> p.headline@ == (if fresh {
            "The punktfunk client is installed."@
        } else {
            "The punktfunk client is up to date."@
        }) && p.next@[0].uri@ == DOCS@ + "/pairing"@ && p.next@[1].uri@ == DOCS@
            + "/windows-host"@,
        !run.uninstall ==> p.footnotes@.len() == notes@.len(),
        !run.uninstall ==> forall|i: int|
            0 <= i < notes@.len() ==> (#[trigger] p.footnotes@[i])@ == text::trimmed(
                notes@[i]@->Line_0,
                Sep::Space,
            ),
{
    let n = next_views(p.next@);
    assert(n.len() == p.next@.len());
    if !run.uninstall {
        assert(n[0] == p.next@[0]@ && n[1] == p.next@[1]@);
        let said = ui::told_views(notes@);
        assert(said.len() == notes@.len());
        assert forall|i: int| 0 <= i < said.len() implies #[trigger] said[i] is Line by {}
        lemma_all_lines(said);
        let f = text::contents(p.footnotes@);
        assert(f.len() == p.footnotes@.len());
        assert forall|i: int| 0 <= i < notes@.len() implies (#[trigger] p.footnotes@[i])@
            == text::trimmed(notes@[i]@->Line_0, Sep::Space) by {
            assert(f[i] == p.footnotes@[i]@);
            assert(said[i] == notes@[i]@);
        }
    }
    assert(text::contents(p.footnotes@).len() == p.footnotes@.len());
    assert(text::opt_view(p.kept) is Some <==> p.kept is Some);
    assert(text::opt_string(p.help) is Some <==> p.help is Some);
}

proof fn lemma_all_lines(s: Seq<ui::ToldView>)
    requires
        forall|i: int| 0 <= i < s.len() ==> #[trigger] s[i] is Line,
    ensures
        footnote_texts(s).len() == s.len(),
        forall|i: int|
            0 <= i < s.len() ==> #[trigger] footnote_texts(s)[i] == text::trimmed(
                s[i]->Line_0,
                Sep::Space,
            ),
    decreases s.len(),
{
    if s.len() > 0 {
        let d = s.drop_last();
        assert forall|i: int| 0 <= i < d.len() implies #[trigger] d[i] is Line by {
            assert(s[i] is Line);
        }
        lemma_all_lines(d);
        assert(s.last() == s[s.len() - 1]);
        assert forall|i: int| 0 <= i < s.len() implies #[trigger] footnote_texts(s)[i]
            == text::trimmed(s[i]->Line_0, Sep::Space) by {
            if i < d.len() {
                assert(footnote_texts(s)[i] == footnote_texts(d)[i]);
                assert(d[i] == s[i]);
            }
        }
    }
}

} // verus!
