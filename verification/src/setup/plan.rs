//! From what was found and what was chosen to what will be done. Pure: nothing is read and
//! nothing is run.
//!
//! A step is data. Uninstalling and switching the channel are plans of their own, not modes with
//! their own way to act. A few steps cannot be command lines: apt's pins, pacman's split, linger
//! and the units each need something the step before them created.

use crate::setup::choices::{Action, Choices};
use crate::setup::facts::{Channel, Facts, Family, Firewall, DOCS};
use crate::setup::platform;
use crate::setup::platform::Catalogue;
use crate::text;
use vstd::prelude::*;
use vstd::string::StringExecFns;

verus! {

/// How a note is meant.
#[derive(Clone, Copy, Debug, PartialEq, Eq, Structural)]
pub enum Level {
    Good,
    Warn,
}

/// The parts of a run.
#[derive(Clone, Copy, Debug, PartialEq, Eq, Structural)]
pub enum Phase {
    Uninstall,
    Switch,
    Install,
    Password,
    Omarchy,
    Conflicts,
    Groups,
    Options,
    Firewall,
    Linger,
    Start,
}

/// The value of a setting.
pub enum SettingValue {
    Flag(bool),
    Word(String),
}

/// The value of a setting.
#[verifier::ext_equal]
pub enum SettingView {
    Flag(bool),
    Word(Seq<char>),
}

impl View for SettingValue {
    type V = SettingView;

    open spec fn view(&self) -> SettingView {
        match *self {
            SettingValue::Flag(b) => SettingView::Flag(b),
            SettingValue::Word(w) => SettingView::Word(w@),
        }
    }
}

/// What a step does.
pub enum StepAction {
    Run(String),
    /// Replaced or appended in `host.env`: a pin the console cannot change.
    SetEnv { key: String, value: String },
    /// Merged into the host's settings: a default the operator can change in the console.
    SetSetting { id: String, to: SettingValue },
    Note(Level, String),
    /// apt will not walk back to a lower candidate; its versions are read after the repo rewrite.
    AptSwitch { pkgs: Vec<String> },
    /// Split into what goes and what comes, against the repo the step before just added.
    PacmanSwitch { pkgs: Vec<String> },
    /// A dry run shows this even without the program: the Omarchy hand-off is planned before the
    /// install that brings it.
    RunIfPresent { program: String, cmd: String, warn_if_missing: Option<String> },
    /// Nothing but a warning where systemd is not the first process: a container has no logind.
    Linger,
    /// Asks again for the user manager that linger may have just created.
    StartUnits { units: Vec<String> },
    /// Writes the console password that was typed. The step does not hold it: a plan is shown and
    /// printed, and a password belongs in neither.
    WebPassword,
    /// Files the console's certificate with the user's browser store. Waits for the file: the
    /// host writes it on its first start.
    TrustCert,
}

/// What a step does.
#[verifier::ext_equal]
pub enum ActionView {
    Run(Seq<char>),
    SetEnv { key: Seq<char>, value: Seq<char> },
    SetSetting { id: Seq<char>, to: SettingView },
    Note(Level, Seq<char>),
    AptSwitch { pkgs: Seq<Seq<char>> },
    PacmanSwitch { pkgs: Seq<Seq<char>> },
    RunIfPresent { program: Seq<char>, cmd: Seq<char>, warn_if_missing: Option<Seq<char>> },
    Linger,
    StartUnits { units: Seq<Seq<char>> },
    WebPassword,
    TrustCert,
}

impl View for StepAction {
    type V = ActionView;

    open spec fn view(&self) -> ActionView {
        match *self {
            StepAction::Run(c) => ActionView::Run(c@),
            StepAction::SetEnv { key, value } => ActionView::SetEnv { key: key@, value: value@ },
            StepAction::SetSetting { id, to } => ActionView::SetSetting {
                id: id@,
                to: to@,
            },
            StepAction::Note(l, t) => ActionView::Note(l, t@),
            StepAction::AptSwitch { pkgs } => ActionView::AptSwitch {
                pkgs: text::contents(pkgs@),
            },
            StepAction::PacmanSwitch { pkgs } => ActionView::PacmanSwitch {
                pkgs: text::contents(pkgs@),
            },
            StepAction::RunIfPresent { program, cmd, warn_if_missing } => ActionView::RunIfPresent {
                program: program@,
                cmd: cmd@,
                warn_if_missing: text::opt_string(warn_if_missing),
            },
            StepAction::Linger => ActionView::Linger,
            StepAction::StartUnits { units } => ActionView::StartUnits {
                units: text::contents(units@),
            },
            StepAction::WebPassword => ActionView::WebPassword,
            StepAction::TrustCert => ActionView::TrustCert,
        }
    }
}

/// A step.
pub struct Step {
    pub action: StepAction,
    /// Once it succeeds, every later phase is skipped: a hand-off already did their work.
    pub ends_run: bool,
}

/// A step.
#[verifier::ext_equal]
pub struct StepView {
    pub action: ActionView,
    pub ends_run: bool,
}

impl View for Step {
    type V = StepView;

    open spec fn view(&self) -> StepView {
        StepView { action: self.action@, ends_run: self.ends_run }
    }
}

pub open spec fn step_views(v: Seq<Step>) -> Seq<StepView> {
    v.map_values(|s: Step| s@)
}

/// A step that goes on.
pub open spec fn plain(action: ActionView) -> StepView {
    StepView { action, ends_run: false }
}

pub open spec fn run_of(cmd: Seq<char>) -> StepView {
    plain(ActionView::Run(cmd))
}

pub open spec fn note_of(level: Level, t: Seq<char>) -> StepView {
    plain(ActionView::Note(level, t))
}

pub open spec fn env_of(key: Seq<char>, value: Seq<char>) -> StepView {
    plain(ActionView::SetEnv { key, value })
}

pub open spec fn setting_of(id: Seq<char>, value: SettingView) -> StepView {
    plain(ActionView::SetSetting { id, to: value })
}

impl Step {
    pub fn run(cmd: &str) -> (s: Step)
        ensures
            s@ == run_of(cmd@),
    {
        Step { action: StepAction::Run(cmd.to_owned()), ends_run: false }
    }

    pub fn note(level: Level, note: &str) -> (s: Step)
        ensures
            s@ == note_of(level, note@),
    {
        Step { action: StepAction::Note(level, note.to_owned()), ends_run: false }
    }

    pub fn set_env(key: &str, value: &str) -> (s: Step)
        ensures
            s@ == env_of(key@, value@),
    {
        Step {
            action: StepAction::SetEnv { key: key.to_owned(), value: value.to_owned() },
            ends_run: false,
        }
    }

    pub fn set_setting(id: &str, value: SettingValue) -> (s: Step)
        ensures
            s@ == setting_of(id@, value@),
    {
        Step { action: StepAction::SetSetting { id: id.to_owned(), to: value }, ends_run: false }
    }
}

/// No steps.
pub fn no_steps() -> (v: Vec<Step>)
    ensures
        step_views(v@) == Seq::<StepView>::empty(),
{
    let v: Vec<Step> = Vec::new();
    assert(step_views(v@) =~= Seq::<StepView>::empty());
    v
}

/// One more step.
pub fn put(v: &mut Vec<Step>, s: Step)
    ensures
        step_views(final(v)@) == step_views(old(v)@).push(s@),
{
    let ghost before = v@;
    v.push(s);
    assert(step_views(v@) =~= step_views(before).push(s@));
}

/// More steps.
pub fn put_all(v: &mut Vec<Step>, more: Vec<Step>)
    ensures
        step_views(final(v)@) == step_views(old(v)@) + step_views(more@),
{
    let ghost before = v@;
    let ghost added = more@;
    let mut more: Vec<Step> = more;
    v.append(&mut more);
    assert(step_views(v@) =~= step_views(before) + step_views(added));
}

/// Steps and one more when it applies.
pub open spec fn and_if(s: Seq<StepView>, c: bool, x: StepView) -> Seq<StepView> {
    if c {
        s.push(x)
    } else {
        s
    }
}

/// A part of a run with its heading.
pub struct PlanPhase {
    pub kind: Phase,
    pub title: String,
    pub steps: Vec<Step>,
}

/// A part of a run with its heading.
#[verifier::ext_equal]
pub struct PhaseView {
    pub kind: Phase,
    pub title: Seq<char>,
    pub steps: Seq<StepView>,
}

impl View for PlanPhase {
    type V = PhaseView;

    open spec fn view(&self) -> PhaseView {
        PhaseView { kind: self.kind, title: self.title@, steps: step_views(self.steps@) }
    }
}

/// A plan: the parts of a run, in order.
pub struct Plan {
    pub phases: Vec<PlanPhase>,
}

impl View for Plan {
    type V = Seq<PhaseView>;

    open spec fn view(&self) -> Seq<PhaseView> {
        self.phases@.map_values(|p: PlanPhase| p@)
    }
}

/// All steps of the first `n` phases, in order.
pub open spec fn steps_of(plan: Seq<PhaseView>, n: int) -> Seq<StepView>
    decreases n,
{
    if n <= 0 {
        Seq::empty()
    } else {
        steps_of(plan, n - 1) + plan[n - 1].steps
    }
}

/// The command line of a step, if it is one.
pub open spec fn command_of(s: StepView) -> Option<Seq<char>> {
    match s.action {
        ActionView::Run(c) => Some(c),
        ActionView::RunIfPresent { cmd, .. } => Some(cmd),
        _ => None,
    }
}

/// The command lines among steps, in order.
pub open spec fn commands_of(s: Seq<StepView>) -> Seq<Seq<char>>
    decreases s.len(),
{
    if s.len() == 0 {
        Seq::empty()
    } else {
        let rest = commands_of(s.drop_last());
        match command_of(s.last()) {
            Some(c) => rest.push(c),
            None => rest,
        }
    }
}

pub open spec fn refs_view(v: Seq<&Step>) -> Seq<StepView> {
    v.map_values(|s: &Step| s@)
}

impl Plan {
    pub fn empty() -> (p: Plan)
        ensures
            p@ == Seq::<PhaseView>::empty(),
    {
        let p: Plan = Plan { phases: Vec::new() };
        assert(p@ =~= Seq::<PhaseView>::empty());
        p
    }

    fn push(&mut self, kind: Phase, title: &str, steps: Vec<Step>)
        ensures
            final(self)@ == old(self)@.push(
                PhaseView { kind, title: title@, steps: step_views(steps@) },
            ),
    {
        let ghost before = self@;
        let phase: PlanPhase = PlanPhase { kind, title: title.to_owned(), steps };
        self.phases.push(phase);
        assert(self@ =~= before.push(phase@));
    }

    /// Every step of the run, in order.
    pub fn steps(&self) -> (out: Vec<&Step>)
        ensures
            refs_view(out@) == steps_of(self@, self@.len() as int),
    {
        let mut out: Vec<&Step> = Vec::new();
        let mut i: usize = 0;
        let ghost plan = self@;
        assert(refs_view(out@) =~= steps_of(plan, 0));
        while i < self.phases.len()
            invariant
                i <= self.phases@.len(),
                plan == self@,
                refs_view(out@) == steps_of(plan, i as int),
            decreases self.phases@.len() - i,
        {
            let phase: &PlanPhase = &self.phases[i];
            let ghost before = refs_view(out@);
            let ghost here = step_views(phase.steps@);
            assert(plan[i as int] == phase@);
            let mut k: usize = 0;
            assert(before + here.take(0) =~= before);
            while k < phase.steps.len()
                invariant
                    k <= phase.steps@.len(),
                    here == step_views(phase.steps@),
                    refs_view(out@) == before + here.take(k as int),
                decreases phase.steps@.len() - k,
            {
                let ghost so_far = out@;
                let s: &Step = &phase.steps[k];
                out.push(s);
                k = k + 1;
                assert(refs_view(out@) =~= refs_view(so_far).push(s@));
                assert(refs_view(out@) =~= before + here.take(k as int));
            }
            assert(here.take(k as int) =~= here);
            i = i + 1;
        }
        assert(plan.len() == self.phases@.len());
        out
    }

    /// Every command line of the run, in order.
    pub fn commands(&self) -> (out: Vec<String>)
        ensures
            text::contents(out@) == commands_of(steps_of(self@, self@.len() as int)),
    {
        let steps: Vec<&Step> = self.steps();
        let ghost all = refs_view(steps@);
        let mut out: Vec<String> = text::no_texts();
        let mut i: usize = 0;
        assert(all.take(0) =~= Seq::<StepView>::empty());
        while i < steps.len()
            invariant
                i <= steps@.len(),
                all == refs_view(steps@),
                text::contents(out@) == commands_of(all.take(i as int)),
            decreases steps@.len() - i,
        {
            let s: &Step = steps[i];
            proof {
                assert(all[i as int] == s@);
                assert(all.take(i + 1).drop_last() =~= all.take(i as int));
                assert(all.take(i + 1).last() == s@);
            }
            match &s.action {
                StepAction::Run(c) => {
                    out = text::with_text(out, c.as_str());
                },
                StepAction::RunIfPresent { cmd, .. } => {
                    out = text::with_text(out, cmd.as_str());
                },
                _ => {},
            }
            i = i + 1;
        }
        assert(all.take(i as int) =~= all);
        out
    }
}

/// A plan and one more phase.
pub open spec fn and_phase(
    plan: Seq<PhaseView>,
    kind: Phase,
    title: Seq<char>,
    steps: Seq<StepView>,
) -> Seq<PhaseView> {
    plan.push(PhaseView { kind, title, steps })
}

/// The uninstall: what the family removes, and the flatpak client that its sweep cannot see.
pub open spec fn uninstall_plan(cat: Catalogue, facts: Facts) -> Seq<PhaseView> {
    and_phase(
        Seq::empty(),
        Phase::Uninstall,
        "Uninstalling the host ("@ + DOCS@ + "/uninstall)"@,
        platform::uninstall_of(facts.family, facts) + (if facts.has_flatpak_client && facts.family
            != Family::Flatpak {
            platform::uninstall_of(Family::Flatpak, facts)
        } else {
            Seq::empty()
        }),
    )
}

/// The first phase of an install: a channel switch, or the install itself.
pub open spec fn first_phase(cat: Catalogue, facts: Facts, choices: Choices) -> PhaseView {
    match choices.switch_from {
        Some(from) => PhaseView {
            kind: Phase::Switch,
            title: "Channel switch: "@ + from.name() + " → "@ + choices.channel.name() + " ("@
                + DOCS@ + "/channels)"@,
            steps: platform::switch_of(facts.family, cat, facts, choices),
        },
        None => install_phase_of(cat, facts, choices),
    }
}

/// This run puts the web console on the box. A switch reinstalls what the box has; what was found
/// already saw its console.
pub open spec fn puts_console(facts: Facts, choices: Choices) -> bool {
    if choices.switch_from is Some {
        false
    } else if facts.is_complete() && choices.components.host {
        facts.current_channel is Some && facts.family.brings_console()
    } else {
        choices.components.host && facts.family.brings_console()
    }
}

/// Steps that do not stand among `repo`.
pub open spec fn without_repo(s: Seq<StepView>, repo: Seq<StepView>) -> Seq<StepView> {
    s.filter(|x: StepView| !repo.contains(x))
}

/// The version line of a complete host.
pub open spec fn version_of(facts: Facts) -> Seq<char> {
    match facts.host_version {
        Some(v) => v@,
        None => ""@,
    }
}

/// What is installed, in words.
pub open spec fn what_of(facts: Facts, choices: Choices) -> Seq<char> {
    let host = if choices.components.host {
        text::joined(text::contents(facts.missing@), " "@)
    } else {
        ""@
    };
    if choices.components.client {
        (if host.len() > 0 {
            host + " "@
        } else {
            host
        }) + "client"@
    } else {
        host
    }
}

/// Where it comes from, in words.
pub open spec fn how_of(facts: Facts, choices: Choices) -> Seq<char> {
    if facts.family == Family::Steamos {
        "built on this device"@
    } else {
        choices.channel.name() + " channel"@
    }
}

/// The install phase. A complete host with a channel is updated in place, without writing the
/// repo it already has; one without a repo is left alone; anything else is installed.
pub open spec fn install_phase_of(cat: Catalogue, facts: Facts, choices: Choices) -> PhaseView {
    if facts.is_complete() && choices.components.host {
        match facts.current_channel {
            None => PhaseView {
                kind: Phase::Install,
                title: "host, web console and plugin runner are already installed ("@ + version_of(
                    facts,
                ) + ") — skipping the install, continuing with setup"@,
                steps: Seq::<StepView>::empty().push(
                    note_of(
                        Level::Warn,
                        "--channel "@ + choices.channel.name()
                            + " had nothing to act on: no punktfunk package repo is configured here, so this install did not come from one (built from source?). Channels: "@
                            + DOCS@ + "/channels"@,
                    ),
                ),
            },
            Some(channel) => PhaseView {
                kind: Phase::Install,
                title: "host, web console and plugin runner are already installed ("@ + version_of(
                    facts,
                ) + ", "@ + channel.name() + " channel) — updating to the current build"@,
                steps: without_repo(
                    platform::install_of(facts.family, cat, facts, choices),
                    platform::write_repo_of(facts.family, cat, facts, choices),
                ),
            },
        }
    } else {
        let native = choices.components.client && facts.family.packs_client();
        PhaseView {
            kind: Phase::Install,
            title: "Installing: "@ + what_of(facts, choices) + " ("@ + how_of(facts, choices)
                + ")"@,
            steps: (if choices.components.host || native {
                platform::install_of(facts.family, cat, facts, choices)
            } else {
                Seq::empty()
            }) + (if choices.components.client && !facts.family.packs_client() {
                platform::install_of(Family::Flatpak, cat, facts, choices)
            } else {
                Seq::empty()
            }),
        }
    }
}

/// What a host install wires before the hand-offs, which end the run.
pub open spec fn early_phases(
    plan: Seq<PhaseView>,
    facts: Facts,
    choices: Choices,
) -> Seq<PhaseView> {
    let a = if choices.components.host && choices.web_password is Some {
        and_phase(
            plan,
            Phase::Password,
            "Web console password"@,
            Seq::<StepView>::empty().push(plain(ActionView::WebPassword)),
        )
    } else {
        plan
    };
    let b = if choices.components.host {
        let c = and_phase(
            a,
            Phase::Conflicts,
            "Checking for Sunshine / Apollo / Vibeshine"@,
            conflict_steps_of(facts, choices),
        );
        let d = and_phase(
            c,
            Phase::Options,
            "Options (each one can be changed later)"@,
            option_steps_of(facts, choices),
        );
        if choices.toggles.linger {
            and_phase(
                d,
                Phase::Linger,
                "Starting at boot with nobody logged in"@,
                Seq::<StepView>::empty().push(plain(ActionView::Linger)),
            )
        } else {
            d
        }
    } else {
        a
    };
    if facts.omarchy {
        and_phase(b, Phase::Omarchy, "Omarchy"@, omarchy_steps_of(choices))
    } else {
        b
    }
}

/// What a host install wires last.
pub open spec fn late_phases(
    plan: Seq<PhaseView>,
    facts: Facts,
    choices: Choices,
    console: bool,
) -> Seq<PhaseView> {
    let a = and_phase(
        plan,
        Phase::Groups,
        "Controller access"@,
        group_steps_of(facts, choices),
    );
    let b = and_phase(a, Phase::Firewall, "Firewall"@, firewall_steps_of(facts, choices));
    if choices.toggles.start {
        and_phase(
            b,
            Phase::Start,
            "Starting the host and the web console"@,
            start_steps_of(facts, choices, console),
        )
    } else {
        b
    }
}

/// The plan.
pub open spec fn plan_of(cat: Catalogue, facts: Facts, choices: Choices) -> Seq<PhaseView> {
    if choices.action == Action::Uninstall {
        uninstall_plan(cat, facts)
    } else {
        let early = early_phases(
            Seq::<PhaseView>::empty().push(first_phase(cat, facts, choices)),
            facts,
            choices,
        );
        if choices.components.host {
            late_phases(early, facts, choices, puts_console(facts, choices))
        } else {
            early
        }
    }
}

/// The install phase has steps of the family's own: the host goes on, or a client the family
/// packs, or a complete host with a channel is updated.
pub open spec fn installs_family(facts: Facts, choices: Choices) -> bool {
    if facts.is_complete() && choices.components.host {
        facts.current_channel is Some
    } else {
        choices.components.host || (choices.components.client && facts.family.packs_client())
    }
}

/// The plan has steps that come from the family's lines of the catalogue.
pub open spec fn reads_family(facts: Facts, choices: Choices) -> bool {
    choices.action != Action::Uninstall && (choices.switch_from is Some || installs_family(
        facts,
        choices,
    ))
}

/// The catalogue carries every line this plan builds on.
pub open spec fn plannable(cat: Catalogue, facts: Facts, choices: Choices) -> bool {
    reads_family(facts, choices) ==> cat.serves(facts.family, facts)
}

/// Whether the catalogue carries every line this plan builds on.
pub fn can_plan(cat: &Catalogue, facts: &Facts, choices: &Choices) -> (r: bool)
    ensures
        r == plannable(*cat, *facts, *choices),
{
    if choices.action == Action::Uninstall {
        return true;
    }
    let installs: bool = if facts.fully_installed() && choices.components.host {
        facts.current_channel.is_some()
    } else {
        choices.components.host || (choices.components.client && facts.family.has_native_client())
    };
    if choices.switch_from.is_some() || installs {
        cat.can_serve(facts.family, facts)
    } else {
        true
    }
}

/// Builds the plan.
pub fn build(cat: &Catalogue, facts: &Facts, choices: &Choices) -> (plan: Plan)
    requires
        plannable(*cat, *facts, *choices),
    ensures
        plan@ == plan_of(*cat, *facts, *choices),
{
    let mut plan: Plan = Plan::empty();
    let backend: platform::PkgBackend = platform::backend(facts.family);
    if choices.action == Action::Uninstall {
        let mut steps: Vec<Step> = backend.uninstall(facts);
        if facts.has_flatpak_client && facts.family != Family::Flatpak {
            put_all(&mut steps, platform::backend(Family::Flatpak).uninstall(facts));
        } else {
            proof {
                let s = step_views(steps@);
                assert(s + Seq::<StepView>::empty() =~= s);
            }
        }
        let title: String = "Uninstalling the host (".to_owned().concat(DOCS).concat("/uninstall)");
        plan.push(Phase::Uninstall, title.as_str(), steps);
        return plan;
    }
    match choices.switch_from {
        Some(from) => {
            let title: String = "Channel switch: ".to_owned().concat(from.as_str()).concat(
                " → ",
            ).concat(choices.channel.as_str()).concat(" (").concat(DOCS).concat("/channels)");
            plan.push(Phase::Switch, title.as_str(), backend.switch(cat, facts, choices));
        },
        None => {
            install_phase(&mut plan, cat, facts, choices);
        },
    }
    let console: bool = console_installed(facts, choices);
    if choices.components.host && choices.web_password.is_some() {
        let mut steps: Vec<Step> = no_steps();
        put(&mut steps, Step { action: StepAction::WebPassword, ends_run: false });
        plan.push(Phase::Password, "Web console password", steps);
    }
    if choices.components.host {
        plan.push(
            Phase::Conflicts,
            "Checking for Sunshine / Apollo / Vibeshine",
            conflict_steps(facts, choices),
        );
        plan.push(
            Phase::Options,
            "Options (each one can be changed later)",
            option_steps(facts, choices),
        );
        if choices.toggles.linger {
            let mut steps: Vec<Step> = no_steps();
            put(&mut steps, Step { action: StepAction::Linger, ends_run: false });
            plan.push(Phase::Linger, "Starting at boot with nobody logged in", steps);
        }
    }
    if facts.omarchy {
        plan.push(Phase::Omarchy, "Omarchy", omarchy_steps(choices));
    }
    if !choices.components.host {
        return plan;
    }
    plan.push(Phase::Groups, "Controller access", group_steps(facts, choices));
    plan.push(Phase::Firewall, "Firewall", firewall_steps(facts, choices));
    if choices.toggles.start {
        plan.push(
            Phase::Start,
            "Starting the host and the web console",
            start_steps(facts, choices, console),
        );
    }
    plan
}

/// Whether this run puts the web console on the box.
fn console_installed(facts: &Facts, choices: &Choices) -> (r: bool)
    ensures
        r == puts_console(*facts, *choices),
{
    if choices.switch_from.is_some() {
        false
    } else if facts.fully_installed() && choices.components.host {
        facts.current_channel.is_some() && facts.family.installs_console()
    } else {
        choices.components.host && facts.family.installs_console()
    }
}

/// Host, console and plugin runner are three packages: a box without weak dependencies would
/// never grow a console if only the host were asked for.
fn install_phase(plan: &mut Plan, cat: &Catalogue, facts: &Facts, choices: &Choices)
    requires
        installs_family(*facts, *choices) ==> cat.serves(facts.family, *facts),
    ensures
        final(plan)@ == old(plan)@.push(install_phase_of(*cat, *facts, *choices)),
{
    let backend: platform::PkgBackend = platform::backend(facts.family);
    if facts.fully_installed() && choices.components.host {
        let version: String = match &facts.host_version {
            Some(v) => v.clone(),
            None => "".to_owned(),
        };
        match facts.current_channel {
            None => {
                let title: String =
                    "host, web console and plugin runner are already installed (".to_owned().concat(
                    version.as_str(),
                ).concat(") — skipping the install, continuing with setup");
                let note: String = "--channel ".to_owned().concat(choices.channel.as_str()).concat(
                    " had nothing to act on: no punktfunk package repo is configured here, so this install did not come from one (built from source?). Channels: ",
                ).concat(DOCS).concat("/channels");
                let mut steps: Vec<Step> = no_steps();
                put(&mut steps, Step::note(Level::Warn, note.as_str()));
                plan.push(Phase::Install, title.as_str(), steps);
            },
            Some(channel) => {
                let title: String =
                    "host, web console and plugin runner are already installed (".to_owned().concat(
                    version.as_str(),
                ).concat(", ").concat(channel.as_str()).concat(
                    " channel) — updating to the current build",
                );
                let repo: Vec<Step> = backend.write_repo(cat, facts, choices);
                let steps: Vec<Step> = drop_repo(backend.install(cat, facts, choices), &repo);
                plan.push(Phase::Install, title.as_str(), steps);
            },
        }
        return;
    }
    let mut what: String = if choices.components.host {
        text::join(&facts.missing, " ")
    } else {
        "".to_owned()
    };
    let native: bool = choices.components.client && facts.family.has_native_client();
    let mut steps: Vec<Step> = if choices.components.host || native {
        backend.install(cat, facts, choices)
    } else {
        no_steps()
    };
    if choices.components.client {
        if !what.as_str().is_empty() {
            what = what.concat(" ");
        }
        what = what.concat("client");
    }
    if choices.components.client && !facts.family.has_native_client() {
        put_all(&mut steps, platform::backend(Family::Flatpak).install(cat, facts, choices));
    } else {
        proof {
            let s = step_views(steps@);
            assert(s + Seq::<StepView>::empty() =~= s);
        }
    }
    let how: String = if facts.family == Family::Steamos {
        "built on this device".to_owned()
    } else {
        choices.channel.as_str().to_owned().concat(" channel")
    };
    let title: String = "Installing: ".to_owned().concat(what.as_str()).concat(" (").concat(
        how.as_str(),
    ).concat(")");
    plan.push(Phase::Install, title.as_str(), steps);
}

fn same_setting(a: &SettingValue, b: &SettingValue) -> (r: bool)
    ensures
        r == (a@ == b@),
{
    match (a, b) {
        (SettingValue::Flag(x), SettingValue::Flag(y)) => *x == *y,
        (SettingValue::Word(x), SettingValue::Word(y)) => text::same(x.as_str(), y.as_str()),
        _ => false,
    }
}

fn same_texts(a: &Vec<String>, b: &Vec<String>) -> (r: bool)
    ensures
        r == (text::contents(a@) == text::contents(b@)),
{
    let ghost x = text::contents(a@);
    let ghost y = text::contents(b@);
    assert(x.len() == a@.len() && y.len() == b@.len());
    if a.len() != b.len() {
        return false;
    }
    let mut i: usize = 0;
    while i < a.len()
        invariant
            i <= a@.len(),
            a@.len() == b@.len(),
            x == text::contents(a@),
            y == text::contents(b@),
            forall|k: int| 0 <= k < i ==> #[trigger] x[k] == y[k],
        decreases a@.len() - i,
    {
        assert(x[i as int] == a@[i as int]@ && y[i as int] == b@[i as int]@);
        if !text::same(a[i].as_str(), b[i].as_str()) {
            return false;
        }
        i = i + 1;
    }
    assert(x =~= y);
    true
}

fn same_opt(a: &Option<String>, b: &Option<String>) -> (r: bool)
    ensures
        r == (text::opt_string(*a) == text::opt_string(*b)),
{
    match (a, b) {
        (Some(x), Some(y)) => text::same(x.as_str(), y.as_str()),
        (None, None) => true,
        _ => false,
    }
}

fn same_action(a: &StepAction, b: &StepAction) -> (r: bool)
    ensures
        r == (a@ == b@),
{
    match (a, b) {
        (StepAction::Run(x), StepAction::Run(y)) => text::same(x.as_str(), y.as_str()),
        (StepAction::SetEnv { key, value }, StepAction::SetEnv { key: k, value: v }) => text::same(
            key.as_str(),
            k.as_str(),
        ) && text::same(value.as_str(), v.as_str()),
        (
            StepAction::SetSetting { id, to },
            StepAction::SetSetting { id: i, to: t },
        ) => text::same(id.as_str(), i.as_str()) && same_setting(to, t),
        (StepAction::Note(l, t), StepAction::Note(m, u)) => *l == *m && text::same(
            t.as_str(),
            u.as_str(),
        ),
        (StepAction::AptSwitch { pkgs }, StepAction::AptSwitch { pkgs: p }) => same_texts(pkgs, p),
        (StepAction::PacmanSwitch { pkgs }, StepAction::PacmanSwitch { pkgs: p }) => same_texts(
            pkgs,
            p,
        ),
        (
            StepAction::RunIfPresent { program, cmd, warn_if_missing },
            StepAction::RunIfPresent { program: p, cmd: c, warn_if_missing: w },
        ) => text::same(program.as_str(), p.as_str()) && text::same(cmd.as_str(), c.as_str())
            && same_opt(warn_if_missing, w),
        (StepAction::Linger, StepAction::Linger) => true,
        (StepAction::StartUnits { units }, StepAction::StartUnits { units: u }) => same_texts(
            units,
            u,
        ),
        (StepAction::WebPassword, StepAction::WebPassword) => true,
        (StepAction::TrustCert, StepAction::TrustCert) => true,
        _ => false,
    }
}

impl Step {
    /// Whether two steps are the same.
    pub fn same(&self, other: &Step) -> (r: bool)
        ensures
            r == (self@ == other@),
    {
        self.ends_run == other.ends_run && same_action(&self.action, &other.action)
    }
}

fn holds_step(v: &Vec<Step>, s: &Step) -> (r: bool)
    ensures
        r == step_views(v@).contains(s@),
{
    let ghost c = step_views(v@);
    let mut i: usize = 0;
    while i < v.len()
        invariant
            i <= v@.len(),
            c == step_views(v@),
            forall|k: int| 0 <= k < i ==> #[trigger] c[k] != s@,
        decreases v@.len() - i,
    {
        assert(c[i as int] == v@[i as int]@);
        if v[i].same(s) {
            assert(i < c.len());
            return true;
        }
        i = i + 1;
    }
    assert(c.len() == v@.len());
    false
}

fn drop_repo(all: Vec<Step>, repo: &Vec<Step>) -> (out: Vec<Step>)
    ensures
        step_views(out@) == without_repo(step_views(all@), step_views(repo@)),
{
    let ghost a = step_views(all@);
    let ghost r = step_views(repo@);
    let ghost kept = |x: StepView| !r.contains(x);
    let ghost whole = all@;
    let n: usize = all.len();
    let mut all: Vec<Step> = all;
    let mut back: Vec<Step> = Vec::new();
    let mut k: usize = n;
    assert(whole.take(n as int) =~= whole);
    assert(back@ =~= whole.skip(n as int).reverse());
    while k > 0
        invariant
            k <= n,
            n == whole.len(),
            all@ == whole.take(k as int),
            back@ == whole.skip(k as int).reverse(),
        decreases k,
    {
        match all.pop() {
            Some(s) => {
                back.push(s);
                proof {
                    assert(s == whole[k - 1]);
                    assert(all@ =~= whole.take(k - 1));
                    assert(back@ =~= whole.skip(k - 1).reverse());
                }
            },
            None => {},
        }
        k = k - 1;
    }
    let mut out: Vec<Step> = no_steps();
    let mut i: usize = 0;
    proof {
        reveal(Seq::filter);
        assert(a.take(0) =~= Seq::<StepView>::empty());
        assert(step_views(out@) =~= a.take(0).filter(kept));
    }
    while i < n
        invariant
            i <= n,
            n == whole.len(),
            a == step_views(whole),
            r == step_views(repo@),
            kept == (|x: StepView| !r.contains(x)),
            back@ == whole.skip(i as int).reverse(),
            step_views(out@) == a.take(i as int).filter(kept),
        decreases n - i,
    {
        let ghost was = back@;
        match back.pop() {
            Some(s) => {
                proof {
                    assert(s == was.last());
                    assert(s == whole[i as int]);
                    assert(a[i as int] == s@);
                    assert(back@ =~= whole.skip(i + 1).reverse());
                    reveal(Seq::filter);
                    assert(a.take(i + 1).drop_last() =~= a.take(i as int));
                    assert(a.take(i + 1).last() == s@);
                }
                if !holds_step(repo, &s) {
                    put(&mut out, s);
                }
            },
            None => {},
        }
        i = i + 1;
    }
    assert(a.take(i as int) =~= a);
    out
}

pub open spec fn bit_of(on: bool) -> Seq<char> {
    if on {
        "1"@
    } else {
        "0"@
    }
}

/// The hand-off takes one or zero, never a bare flag: a missing one has to be an error there, not
/// a silent no.
fn bit(on: bool) -> (s: &'static str)
    ensures
        s@ == bit_of(on),
{
    if on {
        "1"
    } else {
        "0"
    }
}

/// The command of the Omarchy hand-off: every optional part is passed, so it never has to ask.
pub open spec fn handoff_command(choices: Choices) -> Seq<char> {
    "punktfunk-omarchy setup --groups="@ + bit_of(choices.toggles.punktfunk_group) + " --cert="@ + bit_of(
        choices.console_cert,
    ) + " --toasts="@ + bit_of(choices.toggles.omarchy_toasts) + " --idle-guard="@ + bit_of(
        choices.toggles.omarchy_idle,
    ) + " --theme="@ + bit_of(choices.toggles.omarchy_theme)
}

/// The hand-off, which ends the run, or where to find it later.
pub open spec fn omarchy_steps_of(choices: Choices) -> Seq<StepView> {
    if !choices.omarchy_setup {
        Seq::<StepView>::empty().push(
            note_of(
                Level::Good,
                "Run it later with: punktfunk-omarchy setup   ("@ + DOCS@ + "/omarchy)"@,
            ),
        )
    } else {
        Seq::<StepView>::empty().push(
            StepView {
                action: ActionView::RunIfPresent {
                    program: "punktfunk-omarchy"@,
                    cmd: handoff_command(choices),
                    warn_if_missing: Some(
                        "punktfunk-omarchy is not on PATH — the host package should ship it; see "@
                            + DOCS@ + "/omarchy"@,
                    ),
                },
                ends_run: true,
            },
        )
    }
}

/// Group, firewall and user unit are wired generically on every box but this: Omarchy has one
/// command that does them all and knows how to undo itself.
fn omarchy_steps(choices: &Choices) -> (steps: Vec<Step>)
    ensures
        step_views(steps@) == omarchy_steps_of(*choices),
{
    let mut steps: Vec<Step> = no_steps();
    if !choices.omarchy_setup {
        let note: String = "Run it later with: punktfunk-omarchy setup   (".to_owned().concat(
            DOCS,
        ).concat("/omarchy)");
        put(&mut steps, Step::note(Level::Good, note.as_str()));
        return steps;
    }
    let cmd: String = "punktfunk-omarchy setup --groups=".to_owned().concat(
        bit(choices.toggles.punktfunk_group),
    ).concat(" --cert=").concat(bit(choices.console_cert)).concat(" --toasts=").concat(
        bit(choices.toggles.omarchy_toasts),
    ).concat(" --idle-guard=").concat(bit(choices.toggles.omarchy_idle)).concat(" --theme=").concat(
        bit(choices.toggles.omarchy_theme),
    );
    let missing: String =
        "punktfunk-omarchy is not on PATH — the host package should ship it; see ".to_owned().concat(
        DOCS,
    ).concat("/omarchy");
    put(
        &mut steps,
        Step {
            action: StepAction::RunIfPresent {
                program: "punktfunk-omarchy".to_owned(),
                cmd,
                warn_if_missing: Some(missing),
            },
            ends_run: true,
        },
    );
    steps
}

/// Another streaming host wants the management port: it is moved, or the other has to stop.
pub open spec fn conflict_steps_of(facts: Facts, choices: Choices) -> Seq<StepView> {
    if !facts.sunshine_active {
        Seq::<StepView>::empty().push(
            note_of(Level::Good, "No conflicting game-streaming host detected."@),
        )
    } else {
        let warned = Seq::<StepView>::empty().push(
            note_of(
                Level::Warn,
                "another streaming host is active on this box — both want TCP 47990 (its web UI, punktfunk's management API)"@,
            ),
        );
        if choices.move_mgmt_port {
            warned.push(
                env_of(
                    "PUNKTFUNK_MGMT_BIND"@,
                    "0.0.0.0:"@ + text::decimal(choices.mgmt_port as nat),
                ),
            ).push(
                note_of(
                    Level::Good,
                    "Clients learn the port from discovery; the console and plugins read it from mgmt-endpoint. Details: "@
                        + DOCS@ + "/switching-from-sunshine"@,
                ),
            )
        } else {
            warned.push(
                note_of(
                    Level::Warn,
                    "Stop it before you start punktfunk (e.g. sudo systemctl disable --now sunshine) — "@
                        + DOCS@ + "/switching-from-sunshine"@,
                ),
            )
        }
    }
}

fn conflict_steps(facts: &Facts, choices: &Choices) -> (steps: Vec<Step>)
    ensures
        step_views(steps@) == conflict_steps_of(*facts, *choices),
{
    let mut steps: Vec<Step> = no_steps();
    if !facts.sunshine_active {
        put(&mut steps, Step::note(Level::Good, "No conflicting game-streaming host detected."));
        return steps;
    }
    put(
        &mut steps,
        Step::note(
            Level::Warn,
            "another streaming host is active on this box — both want TCP 47990 (its web UI, punktfunk's management API)",
        ),
    );
    if choices.move_mgmt_port {
        let bind: String = "0.0.0.0:".to_owned().concat(
            text::decimal_u64(choices.mgmt_port as u64).as_str(),
        );
        put(&mut steps, Step::set_env("PUNKTFUNK_MGMT_BIND", bind.as_str()));
        let note: String =
            "Clients learn the port from discovery; the console and plugins read it from mgmt-endpoint. Details: ".to_owned().concat(
            DOCS,
        ).concat("/switching-from-sunshine");
        put(&mut steps, Step::note(Level::Good, note.as_str()));
    } else {
        let note: String =
            "Stop it before you start punktfunk (e.g. sudo systemctl disable --now sunshine) — ".to_owned().concat(
            DOCS,
        ).concat("/switching-from-sunshine");
        put(&mut steps, Step::note(Level::Warn, note.as_str()));
    }
    steps
}

/// The step for the input group. Where a recipe manages it, `usermod` is only its fallback.
pub open spec fn input_step_of(facts: Facts) -> StepView {
    if facts.in_input_group {
        note_of(Level::Good, "already in the input group"@)
    } else if facts.has_ujust {
        run_of("ujust add-user-to-input-group add || sudo usermod -aG input \"$USER\""@)
    } else if !facts.has_input_group {
        note_of(
            Level::Warn,
            "no 'input' group on this system — virtual gamepads need /dev/uinput access; see "@
                + facts.docs_page@,
        )
    } else {
        run_of("sudo usermod -aG input \"$USER\""@)
    }
}

/// The groups the user joins.
pub open spec fn group_steps_of(facts: Facts, choices: Choices) -> Seq<StepView> {
    and_if(
        Seq::<StepView>::empty().push(input_step_of(facts)),
        choices.toggles.punktfunk_group,
        if facts.in_punktfunk_group {
            note_of(Level::Good, "already in the punktfunk group"@)
        } else {
            run_of("sudo usermod -aG punktfunk \"$USER\""@)
        },
    )
}

fn group_steps(facts: &Facts, choices: &Choices) -> (steps: Vec<Step>)
    ensures
        step_views(steps@) == group_steps_of(*facts, *choices),
{
    let mut steps: Vec<Step> = no_steps();
    if facts.in_input_group {
        put(&mut steps, Step::note(Level::Good, "already in the input group"));
    } else if facts.has_ujust {
        put(
            &mut steps,
            Step::run("ujust add-user-to-input-group add || sudo usermod -aG input \"$USER\""),
        );
    } else if !facts.has_input_group {
        let note: String =
            "no 'input' group on this system — virtual gamepads need /dev/uinput access; see ".to_owned().concat(
            facts.docs_page.as_str(),
        );
        put(&mut steps, Step::note(Level::Warn, note.as_str()));
    } else {
        put(&mut steps, Step::run("sudo usermod -aG input \"$USER\""));
    }
    if choices.toggles.punktfunk_group {
        if facts.in_punktfunk_group {
            put(&mut steps, Step::note(Level::Good, "already in the punktfunk group"));
        } else {
            put(&mut steps, Step::run("sudo usermod -aG punktfunk \"$USER\""));
        }
    }
    steps
}

/// The options. The console's bind is always written: the line tells the box has answered, so an
/// upgrade never has to guess. A box without a desktop cannot stand a session up for the host.
pub open spec fn option_steps_of(facts: Facts, choices: Choices) -> Seq<StepView> {
    let bound = Seq::<StepView>::empty().push(env_of("PUNKTFUNK_UI_BIND"@, choices.web_bind@));
    let warned = and_if(
        bound,
        choices.toggles.gamestream && facts.sunshine_active,
        note_of(
            Level::Warn,
            "with another GameStream host running, only one can bind the Moonlight ports — stop the other first or skip this"@,
        ),
    );
    let streamed = and_if(
        warned,
        choices.toggles.gamestream,
        setting_of("gamestream"@, SettingView::Flag(true)),
    );
    let shared = and_if(
        streamed,
        choices.toggles.clipboard,
        setting_of("clipboard"@, SettingView::Word("files"@)),
    );
    if !facts.graphical_seat && !facts.desktop_sessions && !facts.couch_box {
        shared.push(
            note_of(
                Level::Good,
                "no desktop session is installed here, so the host will spawn a headless gamescope per connect"@,
            ),
        ).push(env_of("PUNKTFUNK_COMPOSITOR"@, "gamescope"@))
    } else {
        shared
    }
}

fn option_steps(facts: &Facts, choices: &Choices) -> (steps: Vec<Step>)
    ensures
        step_views(steps@) == option_steps_of(*facts, *choices),
{
    let mut steps: Vec<Step> = no_steps();
    put(&mut steps, Step::set_env("PUNKTFUNK_UI_BIND", choices.web_bind.as_str()));
    if choices.toggles.gamestream {
        if facts.sunshine_active {
            put(
                &mut steps,
                Step::note(
                    Level::Warn,
                    "with another GameStream host running, only one can bind the Moonlight ports — stop the other first or skip this",
                ),
            );
        }
        put(&mut steps, Step::set_setting("gamestream", SettingValue::Flag(true)));
    }
    if choices.toggles.clipboard {
        put(&mut steps, Step::set_setting("clipboard", SettingValue::Word("files".to_owned())));
    }
    if !facts.graphical_seat && !facts.desktop_sessions && !facts.couch_box {
        put(
            &mut steps,
            Step::note(
                Level::Good,
                "no desktop session is installed here, so the host will spawn a headless gamescope per connect",
            ),
        );
        put(&mut steps, Step::set_env("PUNKTFUNK_COMPOSITOR", "gamescope"));
    }
    steps
}

/// The firewall services to open.
pub open spec fn services_of(choices: Choices) -> Seq<char> {
    let a = "--add-service=punktfunk-native --add-service=punktfunk-web"@;
    let b = if choices.toggles.gamestream {
        a + " --add-service=punktfunk-gamestream"@
    } else {
        a
    };
    if choices.move_mgmt_port {
        b + " --add-port="@ + text::decimal(choices.mgmt_port as nat) + "/tcp"@
    } else {
        b
    }
}

/// Packages bring services and profiles by name; they never open a port.
pub open spec fn firewall_steps_of(facts: Facts, choices: Choices) -> Seq<StepView> {
    match facts.firewall {
        Firewall::Firewalld => Seq::<StepView>::empty().push(
            run_of("sudo firewall-cmd --reload"@),
        ).push(run_of("sudo firewall-cmd --permanent "@ + services_of(choices))).push(
            run_of("sudo firewall-cmd --reload"@),
        ),
        Firewall::Ufw => and_if(
            and_if(
                Seq::<StepView>::empty().push(run_of("sudo ufw allow punktfunk-native"@)).push(
                    run_of("sudo ufw allow punktfunk-web"@),
                ),
                choices.toggles.gamestream,
                run_of("sudo ufw allow punktfunk-gamestream"@),
            ),
            choices.move_mgmt_port,
            run_of("sudo ufw allow "@ + text::decimal(choices.mgmt_port as nat) + "/tcp"@),
        ),
        Firewall::Absent => Seq::<StepView>::empty().push(
            note_of(
                Level::Good,
                "no active firewall found — nothing to open ("@ + DOCS@
                    + "/ports if you add one later)"@,
            ),
        ),
    }
}

fn firewall_steps(facts: &Facts, choices: &Choices) -> (steps: Vec<Step>)
    ensures
        step_views(steps@) == firewall_steps_of(*facts, *choices),
{
    let mut steps: Vec<Step> = no_steps();
    let port: String = text::decimal_u64(choices.mgmt_port as u64);
    match facts.firewall {
        Firewall::Firewalld => {
            let mut svcs: String =
                "--add-service=punktfunk-native --add-service=punktfunk-web".to_owned();
            if choices.toggles.gamestream {
                svcs = svcs.concat(" --add-service=punktfunk-gamestream");
            }
            if choices.move_mgmt_port {
                svcs = svcs.concat(" --add-port=").concat(port.as_str()).concat("/tcp");
            }
            put(&mut steps, Step::run("sudo firewall-cmd --reload"));
            let cmd: String = "sudo firewall-cmd --permanent ".to_owned().concat(svcs.as_str());
            put(&mut steps, Step::run(cmd.as_str()));
            put(&mut steps, Step::run("sudo firewall-cmd --reload"));
        },
        Firewall::Ufw => {
            put(&mut steps, Step::run("sudo ufw allow punktfunk-native"));
            put(&mut steps, Step::run("sudo ufw allow punktfunk-web"));
            if choices.toggles.gamestream {
                put(&mut steps, Step::run("sudo ufw allow punktfunk-gamestream"));
            }
            if choices.move_mgmt_port {
                let cmd: String = "sudo ufw allow ".to_owned().concat(port.as_str()).concat("/tcp");
                put(&mut steps, Step::run(cmd.as_str()));
            }
        },
        Firewall::Absent => {
            let note: String = "no active firewall found — nothing to open (".to_owned().concat(
                DOCS,
            ).concat("/ports if you add one later)");
            put(&mut steps, Step::note(Level::Good, note.as_str()));
        },
    }
    steps
}

/// The units to start.
pub open spec fn units_of(facts: Facts, console: bool) -> Seq<Seq<char>> {
    let a = Seq::<Seq<char>>::empty().push("punktfunk-host"@);
    let b = if facts.web_unit_present || console {
        a.push("punktfunk-web"@)
    } else {
        a
    };
    if facts.scripting_unit_disabled {
        b.push("punktfunk-scripting"@)
    } else {
        b
    }
}

/// Starts the units, then trusts the certificate: it exists only once the host has run.
pub open spec fn start_steps_of(facts: Facts, choices: Choices, console: bool) -> Seq<StepView> {
    and_if(
        and_if(
            Seq::empty(),
            !(facts.web_unit_present || console),
            note_of(
                Level::Warn,
                "no punktfunk-web.service on this box — the console is not installed, so nothing will answer on 47992 ("@
                    + facts.docs_page@ + ")"@,
            ),
        ).push(plain(ActionView::StartUnits { units: units_of(facts, console) })),
        choices.console_cert,
        plain(ActionView::TrustCert),
    )
}

fn start_steps(facts: &Facts, choices: &Choices, console: bool) -> (steps: Vec<Step>)
    ensures
        step_views(steps@) == start_steps_of(*facts, *choices, console),
{
    let mut steps: Vec<Step> = no_steps();
    let mut units: Vec<String> = text::with_text(text::no_texts(), "punktfunk-host");
    if facts.web_unit_present || console {
        units = text::with_text(units, "punktfunk-web");
    } else {
        let note: String =
            "no punktfunk-web.service on this box — the console is not installed, so nothing will answer on 47992 (".to_owned().concat(
            facts.docs_page.as_str(),
        ).concat(")");
        put(&mut steps, Step::note(Level::Warn, note.as_str()));
    }
    if facts.scripting_unit_disabled {
        units = text::with_text(units, "punktfunk-scripting");
    }
    put(&mut steps, Step { action: StepAction::StartUnits { units }, ends_run: false });
    if choices.console_cert {
        put(&mut steps, Step { action: StepAction::TrustCert, ends_run: false });
    }
    steps
}

/// `base` and then every installed package that is not in it already, once.
pub open spec fn with_installed(base: Seq<Seq<char>>, installed: Seq<Seq<char>>) -> Seq<Seq<char>>
    decreases installed.len(),
{
    if installed.len() == 0 {
        base
    } else {
        let rest = with_installed(base, installed.drop_last());
        if rest.contains(installed.last()) {
            rest
        } else {
            rest.push(installed.last())
        }
    }
}

/// The family's own packages and whatever else is installed: a package left out of a switch
/// stays on the channel the box just left.
pub fn switch_pkgs(base: Vec<String>, installed: &Vec<String>) -> (out: Vec<String>)
    ensures
        text::contents(out@) == with_installed(
            text::contents(base@),
            text::contents(installed@),
        ),
{
    let ghost b = text::contents(base@);
    let ghost all = text::contents(installed@);
    let mut out: Vec<String> = base;
    let mut i: usize = 0;
    assert(all.take(0) =~= Seq::<Seq<char>>::empty());
    while i < installed.len()
        invariant
            i <= installed@.len(),
            all == text::contents(installed@),
            text::contents(out@) == with_installed(b, all.take(i as int)),
        decreases installed@.len() - i,
    {
        proof {
            assert(all.take(i + 1).drop_last() =~= all.take(i as int));
            assert(all.take(i + 1).last() == installed@[i as int]@);
        }
        if !text::among(&out, installed[i].as_str()) {
            out = text::with_text(out, installed[i].as_str());
        }
        i = i + 1;
    }
    assert(all.take(i as int) =~= all);
    out
}

pub open spec fn suffix_of(channel: Channel) -> Seq<char> {
    match channel {
        Channel::Stable => ""@,
        Channel::Canary => "-canary"@,
    }
}

/// The suffix a channel puts on a repo.
pub fn repo_channel_suffix(channel: Channel) -> (s: &'static str)
    ensures
        s@ == suffix_of(channel),
{
    match channel {
        Channel::Stable => "",
        Channel::Canary => "-canary",
    }
}

/// A step does what it was made for: it runs its command, sets its key or setting to its value,
/// and none of these ends the run. What is put goes to the end, in order.
pub proof fn a_step_is_what_it_was_made(
    cmd: &str,
    run: Step,
    key: &str,
    value: &str,
    env: Step,
    id: &str,
    to: SettingValue,
    setting: Step,
    level: Level,
    note: Step,
    v: &mut Vec<Step>,
    s: Step,
    w: &mut Vec<Step>,
    more: Vec<Step>,
    none: Vec<Step>,
)
    requires
        call_ensures(Step::run, (cmd,), run),
        call_ensures(Step::set_env, (key, value), env),
        call_ensures(Step::set_setting, (id, to), setting),
        call_ensures(Step::note, (level, cmd), note),
        call_ensures(put, (v, s), ()),
        call_ensures(put_all, (w, more), ()),
        call_ensures(no_steps, (), none),
    ensures
        run@.action == ActionView::Run(cmd@) && !run@.ends_run,
        env@.action == (ActionView::SetEnv { key: key@, value: value@ }) && !env@.ends_run,
        setting@.action == (ActionView::SetSetting { id: id@, to: to@ }) && !setting@.ends_run,
        note@.action == ActionView::Note(level, cmd@) && !note@.ends_run,
        step_views(final(v)@) == step_views(old(v)@).push(s@),
        step_views(final(w)@) == step_views(old(w)@) + step_views(more@),
        none@.len() == 0,
{
    assert(step_views(none@).len() == none@.len());
}

/// Two steps are the same exactly where each is what the other is.
pub proof fn sameness_is_mutual(a: &Step, b: &Step, c: &Step, ab: bool, ba: bool, bc: bool, ac: bool, aa: bool)
    requires
        call_ensures(Step::same, (a, b), ab),
        call_ensures(Step::same, (b, a), ba),
        call_ensures(Step::same, (b, c), bc),
        call_ensures(Step::same, (a, c), ac),
        call_ensures(Step::same, (a, a), aa),
    ensures
        aa,
        ab == ba,
        ab && bc ==> ac,
        ab ==> a@.action == b@.action && a@.ends_run == b@.ends_run,
        a@.action == b@.action && a@.ends_run == b@.ends_run ==> ab,
{
}

} // verus!
