//! Running a plan: what a step asks for, what its answers mean, and where the run goes next.
//!
//! A dry run walks the same way and stops before anything is started or written, so what it shows
//! is what a real run does. Starting programs and writing files stay with the caller, who hands
//! back what came of them.

use crate::setup::choices::Choices;
use crate::setup::facts::{Channel, Facts, DOCS};
use crate::setup::plan;
use crate::setup::plan::{Level, Plan, SettingValue, StepAction};
use crate::setup::ui;
use crate::setup::ui::{silence, tell, Told};
use crate::text;
use crate::text::Sep;
use vstd::prelude::*;
use vstd::string::StringExecFns;

verus! {

/// The name the certificate is filed under.
pub const CERT_NICK: &'static str = "punktfunk-console";

/// The first rule whose command begins a line, and what it becomes.
pub open spec fn rewritten(cmd: Seq<char>) -> Option<(Seq<char>, Seq<char>)> {
    if text::begins(cmd, "flatpak install --user "@) {
        Some(("flatpak install --user "@, "flatpak install --user -y "@))
    } else if text::begins(cmd, "flatpak uninstall --user "@) {
        Some(("flatpak uninstall --user "@, "flatpak uninstall --user -y "@))
    } else if text::begins(cmd, "sudo apt install "@) {
        Some(("sudo apt install "@, "sudo apt install -y "@))
    } else if text::begins(cmd, "sudo dnf install "@) {
        Some(("sudo dnf install "@, "sudo dnf install -y "@))
    } else if text::begins(cmd, "sudo pacman -Syu "@) {
        Some(("sudo pacman -Syu "@, "sudo pacman -Syu --noconfirm "@))
    } else if text::begins(cmd, "sudo pacman -S "@) {
        Some(("sudo pacman -S "@, "sudo pacman -S --noconfirm "@))
    } else if text::begins(cmd, "sudo dnf distro-sync "@) {
        Some(("sudo dnf distro-sync "@, "sudo dnf distro-sync -y "@))
    } else if text::begins(cmd, "sudo apt purge "@) {
        Some(("sudo apt purge "@, "sudo apt purge -y "@))
    } else if text::begins(cmd, "sudo dnf remove "@) {
        Some(("sudo dnf remove "@, "sudo dnf remove -y "@))
    } else if text::begins(cmd, "sudo pacman -Rns "@) {
        Some(("sudo pacman -Rns "@, "sudo pacman -Rns --noconfirm "@))
    } else if text::begins(cmd, "sudo pacman -Rdd "@) {
        Some(("sudo pacman -Rdd "@, "sudo pacman -Rdd --noconfirm "@))
    } else {
        None
    }
}

/// The command in the form that does not ask: running the installer is the consent.
pub open spec fn unasking(cmd: Seq<char>) -> Seq<char> {
    match rewritten(cmd) {
        Some(r) => r.1 + cmd.skip(r.0.len() as int),
        None => cmd,
    }
}

fn swap(cmd: &str, from: &str, to: &str) -> (r: Option<String>)
    ensures
        r is Some == text::begins(cmd@, from@),
        r matches Some(s) ==> s@ == to@ + cmd@.skip(from@.len() as int),
{
    match text::strip_prefix(cmd, from) {
        Some(rest) => Some(to.to_owned().concat(rest)),
        None => None,
    }
}

fn first_rules(cmd: &str) -> (r: Option<String>)
    ensures
        r is Some ==> r->0@ == unasking(cmd@) && rewritten(cmd@) is Some,
        r is None ==> !text::begins(cmd@, "flatpak install --user "@) && !text::begins(
            cmd@,
            "flatpak uninstall --user "@,
        ) && !text::begins(cmd@, "sudo apt install "@) && !text::begins(
            cmd@,
            "sudo dnf install "@,
        ) && !text::begins(cmd@, "sudo pacman -Syu "@) && !text::begins(cmd@, "sudo pacman -S "@),
{
    match swap(cmd, "flatpak install --user ", "flatpak install --user -y ") {
        Some(s) => {
            return Some(s);
        },
        None => {},
    }
    match swap(cmd, "flatpak uninstall --user ", "flatpak uninstall --user -y ") {
        Some(s) => {
            return Some(s);
        },
        None => {},
    }
    match swap(cmd, "sudo apt install ", "sudo apt install -y ") {
        Some(s) => {
            return Some(s);
        },
        None => {},
    }
    match swap(cmd, "sudo dnf install ", "sudo dnf install -y ") {
        Some(s) => {
            return Some(s);
        },
        None => {},
    }
    match swap(cmd, "sudo pacman -Syu ", "sudo pacman -Syu --noconfirm ") {
        Some(s) => {
            return Some(s);
        },
        None => {},
    }
    swap(cmd, "sudo pacman -S ", "sudo pacman -S --noconfirm ")
}

/// A package manager must not stop for its own question.
pub fn noninteractive(cmd: &str) -> (s: String)
    ensures
        s@ == unasking(cmd@),
{
    match first_rules(cmd) {
        Some(s) => {
            return s;
        },
        None => {},
    }
    match swap(cmd, "sudo dnf distro-sync ", "sudo dnf distro-sync -y ") {
        Some(s) => {
            return s;
        },
        None => {},
    }
    match swap(cmd, "sudo apt purge ", "sudo apt purge -y ") {
        Some(s) => {
            return s;
        },
        None => {},
    }
    match swap(cmd, "sudo dnf remove ", "sudo dnf remove -y ") {
        Some(s) => {
            return s;
        },
        None => {},
    }
    match swap(cmd, "sudo pacman -Rns ", "sudo pacman -Rns --noconfirm ") {
        Some(s) => {
            return s;
        },
        None => {},
    }
    match swap(cmd, "sudo pacman -Rdd ", "sudo pacman -Rdd --noconfirm ") {
        Some(s) => {
            return s;
        },
        None => {},
    }
    cmd.to_owned()
}

/// How a run goes.
#[derive(Clone, Copy, Debug, PartialEq, Eq, Structural)]
pub struct Opts {
    pub dry: bool,
    /// A step's output is kept and shown only when it fails.
    pub quiet: bool,
    /// A terminal that a password prompt can reach.
    pub tty: bool,
}

/// What came of a run.
#[derive(Clone, Copy, Debug, PartialEq, Eq, Structural)]
pub struct Outcome {
    pub relogin: bool,
    pub started: bool,
}

/// Why a run stopped.
#[derive(Debug, PartialEq, Eq)]
pub struct Failed(pub String);

/// A step of a phase.
#[derive(Clone, Copy, Debug, PartialEq, Eq, Structural)]
pub struct Place {
    pub phase: usize,
    pub step: usize,
}

/// Where a run is.
#[derive(Clone, Copy, Debug, PartialEq, Eq, Structural)]
pub enum Point {
    /// The title of this phase is said.
    Heading(usize),
    Step(Place),
}

/// The files a run writes or reads, as they are shown.
pub struct Files {
    pub host_env: String,
    pub password: String,
    pub cert: String,
    /// The browsers' certificate store.
    pub db: String,
}

/// A command to show and, in a real run, to start.
pub struct Shell {
    pub cmd: String,
    pub spawn: bool,
    pub tty: bool,
    pub quiet: bool,
}

/// A command to show and, in a real run, to start.
#[verifier::ext_equal]
pub struct ShellView {
    pub cmd: Seq<char>,
    pub spawn: bool,
    pub tty: bool,
    pub quiet: bool,
}

impl View for Shell {
    type V = ShellView;

    open spec fn view(&self) -> ShellView {
        ShellView { cmd: self.cmd@, spawn: self.spawn, tty: self.tty, quiet: self.quiet }
    }
}

/// What a command line becomes.
pub open spec fn shell_of(cmd: Seq<char>, opts: Opts) -> ShellView {
    ShellView { cmd: unasking(cmd), spawn: !opts.dry, tty: opts.tty, quiet: opts.quiet }
}

/// What a step asks the caller to do.
pub enum Deed {
    /// Show a command and start it; the step did something.
    Run(Shell),
    /// Ask whether a program is there: then run the command, or say why not.
    IfPresent { program: String, shell: Shell, otherwise: Option<String> },
    /// Say something; the step did something when `ran`.
    Say { told: Told, ran: bool },
    /// There is nothing to do; the step did something when `ran`.
    Nothing { ran: bool },
    /// The run fails.
    Fail(Failed),
    /// Write a line of `host.env`.
    Env { key: String, value: String },
    /// Write a setting.
    Setting { id: String, to: SettingValue },
    /// Write the password's file.
    Password { body: String },
    /// Ask for the versions a channel offers, then [`apt_switch`].
    AptSwitch,
    /// Ask which packages a channel offers, then [`pacman_switch`].
    PacmanSwitch,
    /// Ask for the user manager, then [`Executor::start_units`].
    StartUnits,
    /// Go on with [`trust_cert`].
    TrustCert,
}

/// What a step asks the caller to do.
#[verifier::ext_equal]
pub enum DeedView {
    Run(ShellView),
    IfPresent { program: Seq<char>, shell: ShellView, otherwise: Option<Seq<char>> },
    Say { told: ui::ToldView, ran: bool },
    Nothing { ran: bool },
    Fail(Seq<char>),
    Env { key: Seq<char>, value: Seq<char> },
    Setting { id: Seq<char>, to: plan::SettingView },
    Password { body: Seq<char> },
    AptSwitch,
    PacmanSwitch,
    StartUnits,
    TrustCert,
}

impl View for Deed {
    type V = DeedView;

    open spec fn view(&self) -> DeedView {
        match *self {
            Deed::Run(s) => DeedView::Run(s@),
            Deed::IfPresent { program, shell, otherwise } => DeedView::IfPresent {
                program: program@,
                shell: shell@,
                otherwise: text::opt_string(otherwise),
            },
            Deed::Say { told, ran } => DeedView::Say { told: told@, ran },
            Deed::Nothing { ran } => DeedView::Nothing { ran },
            Deed::Fail(f) => DeedView::Fail(f.0@),
            Deed::Env { key, value } => DeedView::Env { key: key@, value: value@ },
            Deed::Setting { id, to } => DeedView::Setting { id: id@, to: to@ },
            Deed::Password { body } => DeedView::Password { body: body@ },
            Deed::AptSwitch => DeedView::AptSwitch,
            Deed::PacmanSwitch => DeedView::PacmanSwitch,
            Deed::StartUnits => DeedView::StartUnits,
            Deed::TrustCert => DeedView::TrustCert,
        }
    }
}

/// The command that makes a user's services outlive the login.
pub const LINGER_CMD: &'static str = "sudo loginctl enable-linger \"$USER\"";

/// What a step asks for. A missing program, a channel's packages and the certificate are asked of
/// only in a real run, and only a real run writes; linger means nothing without systemd, and a
/// dry run still shows it.
pub open spec fn deed_of(
    action: plan::ActionView,
    facts: Facts,
    choices: Choices,
    opts: Opts,
    files: Files,
) -> DeedView {
    match action {
        plan::ActionView::Run(cmd) => DeedView::Run(shell_of(cmd, opts)),
        plan::ActionView::RunIfPresent { program, cmd, warn_if_missing } => if opts.dry {
            DeedView::Run(shell_of(cmd, opts))
        } else {
            DeedView::IfPresent { program, shell: shell_of(cmd, opts), otherwise: warn_if_missing }
        },
        plan::ActionView::Note(Level::Good, t) => DeedView::Say {
            told: ui::ToldView::Fine(t),
            ran: false,
        },
        plan::ActionView::Note(Level::Warn, t) => DeedView::Say {
            told: ui::ToldView::Warn(t),
            ran: false,
        },
        plan::ActionView::SetEnv { key, value } => if opts.dry {
            DeedView::Say {
                told: env_told(true, false, key, value, files.host_env@),
                ran: true,
            }
        } else {
            DeedView::Env { key, value }
        },
        plan::ActionView::SetSetting { id, to } => if opts.dry {
            DeedView::Nothing { ran: true }
        } else {
            DeedView::Setting { id, to }
        },
        plan::ActionView::AptSwitch { pkgs } => if opts.dry {
            let pins = pins_of(pkgs, Seq::empty(), true, pkgs.len() as int);
            if pins.len() > 0 {
                DeedView::Run(shell_of("sudo apt install --allow-downgrades"@ + pins, opts))
            } else {
                DeedView::Fail(no_apt_packages(choices.channel))
            }
        } else {
            DeedView::AptSwitch
        },
        plan::ActionView::PacmanSwitch { pkgs } => if opts.dry {
            DeedView::Run(
                shell_of(
                    "sudo pacman -S"@ + offered(pkgs, Seq::empty(), true, true, pkgs.len() as int),
                    opts,
                ),
            )
        } else {
            DeedView::PacmanSwitch
        },
        plan::ActionView::Linger => if opts.dry || facts.systemd_pid1 {
            DeedView::Run(shell_of(LINGER_CMD@, opts))
        } else {
            DeedView::Say {
                told: ui::ToldView::Warn(
                    "no systemd as PID 1 here (a container?) — skipping linger, nothing would honour it"@,
                ),
                ran: false,
            }
        },
        plan::ActionView::StartUnits { .. } => DeedView::StartUnits,
        plan::ActionView::WebPassword => match choices.web_password {
            None => DeedView::Nothing { ran: false },
            Some(password) => if opts.dry {
                DeedView::Say { told: password_told(true, None, files.password@), ran: true }
            } else {
                DeedView::Password { body: password_line(password@) }
            },
        },
        plan::ActionView::TrustCert => if opts.dry {
            DeedView::Say {
                told: ui::ToldView::Plus(trust_line(files.cert@, files.db@)),
                ran: true,
            }
        } else {
            DeedView::TrustCert
        },
    }
}

/// A command changes the user's groups, which apply only after a new login.
pub open spec fn regroups(action: plan::ActionView) -> bool {
    action matches plan::ActionView::Run(cmd) && (text::holds(cmd, "usermod -aG"@) || text::holds(
        cmd,
        "add-user-to-input-group"@,
    ) || text::holds(cmd, "steamdeck/install.sh"@))
}

/// The heading of a phase, if there is such a phase.
pub open spec fn heading_at(p: Seq<plan::PhaseView>, k: int) -> Option<Point> {
    if 0 <= k < p.len() {
        Some(Point::Heading(k as usize))
    } else {
        None
    }
}

/// Where a run goes from a heading or from a step that did something or not. Every phase has its
/// heading said, one without steps too. A hand-off that was skipped did nothing, so what it would
/// replace still runs; a dry run shows all of it.
pub open spec fn next_point(
    p: Seq<plan::PhaseView>,
    at: Point,
    ran: bool,
    dry: bool,
) -> Option<Point> {
    match at {
        Point::Heading(k) => if p[k as int].steps.len() > 0 {
            Some(Point::Step(Place { phase: k, step: 0 }))
        } else {
            heading_at(p, k + 1)
        },
        Point::Step(s) => if p[s.phase as int].steps[s.step as int].ends_run && ran && !dry {
            None
        } else if s.step + 1 < p[s.phase as int].steps.len() {
            Some(Point::Step(Place { phase: s.phase, step: (s.step + 1) as usize }))
        } else {
            heading_at(p, s.phase + 1)
        },
    }
}

/// A place in a plan.
pub open spec fn is_place(p: Seq<plan::PhaseView>, at: Place) -> bool {
    at.phase < p.len() && at.step < p[at.phase as int].steps.len()
}

/// A point of a plan.
pub open spec fn is_point(p: Seq<plan::PhaseView>, at: Point) -> bool {
    match at {
        Point::Heading(k) => k < p.len(),
        Point::Step(s) => is_place(p, s),
    }
}

/// A run of a plan.
#[derive(Clone, Copy, Debug, PartialEq, Eq, Structural)]
pub struct Executor {
    pub opts: Opts,
    pub outcome: Outcome,
}

impl Executor {
    /// A run that begins. A run for the client alone starts no service.
    pub fn new(opts: Opts, choices: &Choices) -> (e: Executor)
        ensures
            e == (Executor {
                opts,
                outcome: Outcome {
                    relogin: false,
                    started: choices.toggles.start && choices.components.host,
                },
            }),
    {
        Executor {
            opts,
            outcome: Outcome {
                relogin: false,
                started: choices.toggles.start && choices.components.host,
            },
        }
    }

    /// Where a run of a plan begins.
    pub fn first(plan: &Plan) -> (at: Option<Point>)
        ensures
            at == heading_at(plan@, 0),
            at matches Some(x) ==> is_point(plan@, x),
    {
        assert(plan@.len() == plan.phases@.len());
        if plan.phases.len() > 0 {
            Some(Point::Heading(0))
        } else {
            None
        }
    }

    fn heading_after(plan: &Plan, k: usize) -> (at: Option<Point>)
        requires
            k < plan@.len(),
        ensures
            at == heading_at(plan@, k + 1),
            at matches Some(x) ==> is_point(plan@, x),
    {
        assert(plan@.len() == plan.phases@.len());
        if k < plan.phases.len() - 1 {
            Some(Point::Heading(k + 1))
        } else {
            None
        }
    }

    /// Where a run goes from a heading, or from a step that did something or not.
    pub fn next(&self, plan: &Plan, at: Point, ran: bool) -> (to: Option<Point>)
        requires
            is_point(plan@, at),
        ensures
            to == next_point(plan@, at, ran, self.opts.dry),
            to matches Some(x) ==> is_point(plan@, x),
    {
        let ghost p = plan@;
        assert(p.len() == plan.phases@.len());
        match at {
            Point::Heading(k) => {
                assert(p[k as int] == plan.phases@[k as int]@);
                let phase: &plan::PlanPhase = &plan.phases[k];
                assert(plan::step_views(phase.steps@).len() == phase.steps@.len());
                if phase.steps.len() > 0 {
                    Some(Point::Step(Place { phase: k, step: 0 }))
                } else {
                    Self::heading_after(plan, k)
                }
            },
            Point::Step(s) => {
                assert(p[s.phase as int] == plan.phases@[s.phase as int]@);
                let phase: &plan::PlanPhase = &plan.phases[s.phase];
                let ghost steps = plan::step_views(phase.steps@);
                assert(steps.len() == phase.steps@.len());
                assert(steps[s.step as int] == phase.steps@[s.step as int]@);
                if phase.steps[s.step].ends_run && ran && !self.opts.dry {
                    None
                } else if s.step < phase.steps.len() - 1 {
                    Some(Point::Step(Place { phase: s.phase, step: s.step + 1 }))
                } else {
                    Self::heading_after(plan, s.phase)
                }
            },
        }
    }

    /// What a step asks for, and what is known of the outcome once it is taken up.
    pub fn step(
        &mut self,
        action: &StepAction,
        facts: &Facts,
        choices: &Choices,
        files: &Files,
    ) -> (d: Deed)
        ensures
            d@ == deed_of(action@, *facts, *choices, old(self).opts, *files),
            final(self).opts == old(self).opts,
            final(self).outcome == (Outcome {
                relogin: old(self).outcome.relogin || regroups(action@),
                started: old(self).outcome.started,
            }),
    {
        match action {
            StepAction::Run(cmd) => {
                if text::contains(cmd.as_str(), "usermod -aG") || text::contains(
                    cmd.as_str(),
                    "add-user-to-input-group",
                ) || text::contains(cmd.as_str(), "steamdeck/install.sh") {
                    self.outcome.relogin = true;
                }
                Deed::Run(self.shell(cmd.as_str()))
            },
            StepAction::RunIfPresent { program, cmd, warn_if_missing } => if self.opts.dry {
                Deed::Run(self.shell(cmd.as_str()))
            } else {
                let otherwise: Option<String> = match warn_if_missing {
                    Some(t) => Some(t.clone()),
                    None => None,
                };
                Deed::IfPresent {
                    program: program.clone(),
                    shell: self.shell(cmd.as_str()),
                    otherwise,
                }
            },
            StepAction::Note(level, t) => match *level {
                Level::Good => Deed::Say { told: Told::Fine(t.clone()), ran: false },
                Level::Warn => Deed::Say { told: Told::Warn(t.clone()), ran: false },
            },
            StepAction::SetEnv { key, value } => if self.opts.dry {
                Deed::Say {
                    told: tell_env(
                        true,
                        false,
                        key.as_str(),
                        value.as_str(),
                        files.host_env.as_str(),
                    ),
                    ran: true,
                }
            } else {
                Deed::Env { key: key.clone(), value: value.clone() }
            },
            StepAction::SetSetting { id, to } => if self.opts.dry {
                Deed::Nothing { ran: true }
            } else {
                let to: SettingValue = match to {
                    SettingValue::Flag(b) => SettingValue::Flag(*b),
                    SettingValue::Word(w) => SettingValue::Word(w.clone()),
                };
                Deed::Setting { id: id.clone(), to }
            },
            StepAction::AptSwitch { pkgs } => if self.opts.dry {
                let rows: Vec<Option<String>> = Vec::new();
                assert(rows@ =~= Seq::empty());
                assert(text::contents(pkgs@).len() == pkgs@.len());
                match apt_switch(pkgs, &rows, true, choices.channel) {
                    Ok(cmd) => Deed::Run(self.shell(cmd.as_str())),
                    Err(f) => Deed::Fail(f),
                }
            } else {
                Deed::AptSwitch
            },
            StepAction::PacmanSwitch { pkgs } => if self.opts.dry {
                let there: Vec<bool> = Vec::new();
                assert(there@ =~= Seq::empty());
                assert(text::contents(pkgs@).len() == pkgs@.len());
                let s: PacmanSwitch = pacman_switch(pkgs, &there, true, facts.current_channel);
                Deed::Run(self.shell(s.install.as_str()))
            } else {
                Deed::PacmanSwitch
            },
            StepAction::Linger => if self.opts.dry || facts.systemd_pid1 {
                Deed::Run(self.shell(LINGER_CMD))
            } else {
                Deed::Say {
                    told: Told::Warn(
                        "no systemd as PID 1 here (a container?) — skipping linger, nothing would honour it".to_owned(),
                    ),
                    ran: false,
                }
            },
            StepAction::StartUnits { .. } => Deed::StartUnits,
            StepAction::WebPassword => match &choices.web_password {
                None => Deed::Nothing { ran: false },
                Some(password) => if self.opts.dry {
                    Deed::Say {
                        told: tell_password(true, None, files.password.as_str()),
                        ran: true,
                    }
                } else {
                    Deed::Password { body: password_body(password.as_str()) }
                },
            },
            StepAction::TrustCert => if self.opts.dry {
                Deed::Say {
                    told: Told::Plus(trust_shown(files.cert.as_str(), files.db.as_str())),
                    ran: true,
                }
            } else {
                Deed::TrustCert
            },
        }
    }

    /// A command in the form that does not ask, shown and started as this run goes.
    pub fn shell(&self, cmd: &str) -> (s: Shell)
        ensures
            s@ == shell_of(cmd@, self.opts),
    {
        Shell {
            cmd: noninteractive(cmd),
            spawn: !self.opts.dry,
            tty: self.opts.tty,
            quiet: self.opts.quiet,
        }
    }

    /// Starting the units, once the user manager was asked for: linger may have just made it. Where
    /// the command is started, the manager reads its units anew before.
    pub fn start_units(&mut self, units: &Vec<String>, live: bool) -> (r: Result<Shell, Vec<Told>>)
        ensures
            final(self).opts == old(self).opts,
            final(self).outcome == (Outcome {
                relogin: old(self).outcome.relogin,
                started: old(self).outcome.started && live,
            }),
            match r {
                Ok(s) => live && s@ == shell_of(
                    "systemctl --user enable --now "@ + text::joined(
                        text::contents(units@),
                        " "@,
                    ),
                    old(self).opts,
                ),
                Err(v) => !live && ui::told_views(v@) == no_manager(),
            },
    {
        if !live {
            self.outcome.started = false;
            let mut v: Vec<Told> = silence();
            tell(
                &mut v,
                Told::Warn(
                    "no user systemd session here (ssh without a login session?) — run this from a terminal in your desktop session:".to_owned(),
                ),
            );
            tell(
                &mut v,
                Told::Detail(
                    "systemctl --user enable --now punktfunk-host punktfunk-web".to_owned(),
                ),
            );
            return Err(v);
        }
        let cmd: String = "systemctl --user enable --now ".to_owned().concat(
            text::join(units, " ").as_str(),
        );
        Ok(self.shell(cmd.as_str()))
    }
}

/// What is said without a user manager.
pub open spec fn no_manager() -> Seq<ui::ToldView> {
    Seq::<ui::ToldView>::empty().push(
        ui::ToldView::Warn(
            "no user systemd session here (ssh without a login session?) — run this from a terminal in your desktop session:"@,
        ),
    ).push(
        ui::ToldView::Detail("systemctl --user enable --now punktfunk-host punktfunk-web"@),
    )
}

/// The last lines of a failed step, each on a line of its own.
pub open spec fn tail_text(lines: Seq<Seq<char>>) -> Seq<char>
    decreases lines.len(),
{
    if lines.len() == 0 {
        Seq::empty()
    } else {
        tail_text(lines.drop_last()) + "\n     "@ + lines.last()
    }
}

/// What is said of a step that failed: the page to follow, and in a quiet run, which showed
/// nothing, its last thirty lines.
pub open spec fn failure_of(
    docs_page: Seq<char>,
    quiet: bool,
    output: Seq<Seq<char>>,
) -> Seq<char> {
    let said =
        "that step failed — fix it and re-run (the script is safe to repeat), or follow the page by hand: "@
        + docs_page;
    if quiet && output.len() > 0 {
        said + "\n   the step's last lines:"@ + tail_text(
            output.skip(
                if output.len() > 30 {
                    output.len() - 30
                } else {
                    0
                },
            ),
        )
    } else {
        said
    }
}

/// Words a failed step.
pub fn step_failed(docs_page: &str, quiet: bool, output: &Vec<String>) -> (f: Failed)
    ensures
        f.0@ == failure_of(docs_page@, quiet, text::contents(output@)),
{
    let said: String =
        "that step failed — fix it and re-run (the script is safe to repeat), or follow the page by hand: ".to_owned().concat(
        docs_page,
    );
    let n: usize = output.len();
    let ghost all = text::contents(output@);
    assert(all.len() == n);
    if !quiet || n == 0 {
        return Failed(said);
    }
    let skip: usize = if n > 30 {
        n - 30
    } else {
        0
    };
    let head: String = said.concat("\n   the step's last lines:");
    let ghost tail = all.skip(skip as int);
    let mut t: String = head.clone();
    let mut i: usize = skip;
    assert(tail.take(0) =~= Seq::<Seq<char>>::empty());
    assert(t@ =~= head@ + tail_text(tail.take(0)));
    while i < n
        invariant
            skip <= i <= n,
            n == output@.len(),
            all == text::contents(output@),
            tail == all.skip(skip as int),
            t@ == head@ + tail_text(tail.take(i - skip)),
        decreases n - i,
    {
        let ghost k = i - skip;
        proof {
            assert(tail.take(k + 1).drop_last() =~= tail.take(k));
            assert(tail.take(k + 1).last() == output@[i as int]@);
        }
        let ghost before = t@;
        t = t.concat("\n     ").concat(output[i].as_str());
        assert(t@ =~= head@ + (tail_text(tail.take(k)) + "\n     "@ + output@[i as int]@));
        i = i + 1;
    }
    assert(tail.take(i - skip) =~= tail);
    Failed(t)
}

/// The first line that sets a key, or the number of lines.
pub open spec fn env_at(lines: Seq<Seq<char>>, key: Seq<char>) -> int {
    text::first_with(lines, key + "="@, 0)
}

/// The lines of an environment file with one key set: replaced where it stands, else put last.
pub open spec fn env_lines(lines: Seq<Seq<char>>, key: Seq<char>, value: Seq<char>) -> Seq<
    Seq<char>,
> {
    let at = env_at(lines, key);
    if at < lines.len() {
        lines.update(at, key + "="@ + value)
    } else {
        lines.push(key + "="@ + value)
    }
}

/// An environment file with one key set.
pub open spec fn env_body_of(existing: Seq<char>, key: Seq<char>, value: Seq<char>) -> Seq<char> {
    text::joined(env_lines(text::lines_of(existing), key, value), "\n"@) + "\n"@
}

/// Sets one key of an environment file.
pub fn set_env(existing: &str, key: &str, value: &str) -> (body: String)
    ensures
        body@ == env_body_of(existing@, key@, value@),
{
    let found: Vec<&str> = text::lines(existing);
    let ghost l = text::views(found@);
    let mut lines: Vec<String> = text::no_texts();
    let mut i: usize = 0;
    assert(l.take(0) =~= Seq::<Seq<char>>::empty());
    while i < found.len()
        invariant
            i <= found@.len(),
            l == text::views(found@),
            text::contents(lines@) == l.take(i as int),
        decreases found@.len() - i,
    {
        lines = text::with_text(lines, found[i]);
        i = i + 1;
        assert(text::contents(lines@) =~= l.take(i as int));
    }
    assert(l.take(i as int) =~= l);
    let prefix: String = key.to_owned().concat("=");
    let line: String = prefix.clone().concat(value);
    let at: usize = text::find_with(&lines, prefix.as_str());
    let ghost before = lines@;
    assert(text::contents(lines@).len() == lines@.len());
    if at < lines.len() {
        lines.set(at, line);
        assert(text::contents(lines@) =~= text::contents(before).update(at as int, line@));
    } else {
        lines = text::with_text(lines, line.as_str());
    }
    text::join(&lines, "\n").concat("\n")
}

/// What is said of an environment line: in a dry run what it would be, else what came of it.
pub open spec fn env_told(
    dry: bool,
    written: bool,
    key: Seq<char>,
    value: Seq<char>,
    shown: Seq<char>,
) -> ui::ToldView {
    if dry {
        ui::ToldView::Fine("would set "@ + key + "="@ + value + " in "@ + shown)
    } else if written {
        ui::ToldView::Fine(key + "="@ + value + " → "@ + shown)
    } else {
        ui::ToldView::Warn("couldn't write "@ + shown)
    }
}

/// Words an environment line.
pub fn tell_env(dry: bool, written: bool, key: &str, value: &str, shown: &str) -> (t: Told)
    ensures
        t@ == env_told(dry, written, key@, value@, shown@),
{
    if dry {
        Told::Fine(
            "would set ".to_owned().concat(key).concat("=").concat(value).concat(" in ").concat(
                shown,
            ),
        )
    } else if written {
        Told::Fine(key.to_owned().concat("=").concat(value).concat(" → ").concat(shown))
    } else {
        Told::Warn("couldn't write ".to_owned().concat(shown))
    }
}

/// The file that holds the console's password. The console hashes the line on the first sign-in;
/// a fresh line resets it.
pub open spec fn password_line(password: Seq<char>) -> Seq<char> {
    "PUNKTFUNK_UI_PASSWORD="@ + password + "\n"@
}

pub fn password_body(password: &str) -> (s: String)
    ensures
        s@ == password_line(password@),
{
    "PUNKTFUNK_UI_PASSWORD=".to_owned().concat(password).concat("\n")
}

/// What is said of the password's file; never the password.
pub open spec fn password_told(
    dry: bool,
    failed: Option<Seq<char>>,
    shown: Seq<char>,
) -> ui::ToldView {
    if dry {
        ui::ToldView::Fine("would write your password to "@ + shown)
    } else {
        match failed {
            None => ui::ToldView::Fine("your password → "@ + shown),
            Some(e) => ui::ToldView::Warn(
                "couldn't write "@ + shown + " — "@ + e
                    + "; the console will generate one instead"@,
            ),
        }
    }
}

/// Words what became of the password's file.
pub fn tell_password(dry: bool, failed: Option<&str>, shown: &str) -> (t: Told)
    ensures
        t@ == password_told(dry, text::opt_view(failed), shown@),
{
    if dry {
        Told::Fine("would write your password to ".to_owned().concat(shown))
    } else {
        match failed {
            None => Told::Fine("your password → ".to_owned().concat(shown)),
            Some(e) => Told::Warn(
                "couldn't write ".to_owned().concat(shown).concat(" — ").concat(e).concat(
                    "; the console will generate one instead",
                ),
            ),
        }
    }
}

/// The version in the first row apt lists: its third word.
pub open spec fn version_in(row: Option<Seq<char>>) -> Option<Seq<char>> {
    match row {
        Some(l) => if text::words(l).len() >= 3 {
            Some(text::words(l)[2])
        } else {
            None
        },
        None => None,
    }
}

fn version_of(row: &Option<String>) -> (v: Option<String>)
    ensures
        text::opt_string(v) == version_in(text::opt_string(*row)),
{
    match row {
        Some(l) => {
            let words: Vec<&str> = text::split_words(l.as_str());
            assert(text::views(words@).len() == words@.len());
            if words.len() >= 3 {
                assert(text::views(words@)[2] == words@[2]@);
                Some(words[2].to_owned())
            } else {
                None
            }
        },
        None => None,
    }
}

/// The pins of the first `n` packages. A package the channel does not offer keeps what it has:
/// naming it without a version would take the highest from any source.
pub open spec fn pins_of(
    pkgs: Seq<Seq<char>>,
    rows: Seq<Option<String>>,
    dry: bool,
    n: int,
) -> Seq<char>
    decreases n,
{
    if n <= 0 {
        Seq::empty()
    } else {
        let rest = pins_of(pkgs, rows, dry, n - 1);
        if dry {
            rest + " "@ + pkgs[n - 1] + "=<version>"@
        } else {
            match version_in(text::opt_string(rows[n - 1])) {
                Some(v) => rest + " "@ + pkgs[n - 1] + "="@ + v,
                None => rest,
            }
        }
    }
}

/// What is said of a channel that offers nothing.
pub open spec fn no_apt_packages(channel: Channel) -> Seq<char> {
    "the "@ + channel.name()
        + " apt channel offers no punktfunk packages — check /etc/apt/sources.list.d/punktfunk.list ("@
        + DOCS@ + "/channels)"@
}

/// apt does not walk back to a lower version, so a switch names each. `rows` holds, for each
/// package, the first row apt lists for it.
pub fn apt_switch(
    pkgs: &Vec<String>,
    rows: &Vec<Option<String>>,
    dry: bool,
    channel: Channel,
) -> (r: Result<String, Failed>)
    requires
        dry || rows@.len() == pkgs@.len(),
    ensures
        ({
            let pins = pins_of(text::contents(pkgs@), rows@, dry, pkgs@.len() as int);
            match r {
                Ok(cmd) => pins.len() > 0 && cmd@ == "sudo apt install --allow-downgrades"@ + pins,
                Err(f) => pins.len() == 0 && f.0@ == no_apt_packages(channel),
            }
        }),
{
    let ghost all = text::contents(pkgs@);
    let mut pins: String = String::new();
    let mut i: usize = 0;
    while i < pkgs.len()
        invariant
            i <= pkgs@.len(),
            dry || rows@.len() == pkgs@.len(),
            all == text::contents(pkgs@),
            pins@ == pins_of(all, rows@, dry, i as int),
        decreases pkgs@.len() - i,
    {
        assert(all[i as int] == pkgs@[i as int]@);
        if dry {
            pins = pins.concat(" ").concat(pkgs[i].as_str()).concat("=<version>");
        } else {
            match version_of(&rows[i]) {
                Some(v) => {
                    pins = pins.concat(" ").concat(pkgs[i].as_str()).concat("=").concat(v.as_str());
                },
                None => {},
            }
        }
        i = i + 1;
    }
    if pins.as_str().is_empty() {
        return Err(
            Failed(
                "the ".to_owned().concat(channel.as_str()).concat(
                    " apt channel offers no punktfunk packages — check /etc/apt/sources.list.d/punktfunk.list (",
                ).concat(DOCS).concat("/channels)"),
            ),
        );
    }
    Ok("sudo apt install --allow-downgrades".to_owned().concat(pins.as_str()))
}

/// The names of the first `n` packages that are offered, or of those that are not.
pub open spec fn offered(
    pkgs: Seq<Seq<char>>,
    there: Seq<bool>,
    dry: bool,
    want: bool,
    n: int,
) -> Seq<char>
    decreases n,
{
    if n <= 0 {
        Seq::empty()
    } else {
        let rest = offered(pkgs, there, dry, want, n - 1);
        if (dry || there[n - 1]) == want {
            rest + " "@ + pkgs[n - 1]
        } else {
            rest
        }
    }
}

/// What is said of a package that has to go.
pub open spec fn leaving(pkg: Seq<char>, channel: Option<Channel>) -> ui::ToldView {
    let c = match channel {
        Some(c) => c.name(),
        None => "target"@,
    };
    ui::ToldView::Warn(
        pkg + " is not on the "@ + c + " channel — removing it (the "@ + c
            + " packages carry its files)"@,
    )
}

/// What is said of the packages that have to go among the first `n`.
pub open spec fn leavings(
    pkgs: Seq<Seq<char>>,
    there: Seq<bool>,
    dry: bool,
    channel: Option<Channel>,
    n: int,
) -> Seq<ui::ToldView>
    decreases n,
{
    if n <= 0 {
        Seq::empty()
    } else {
        let rest = leavings(pkgs, there, dry, channel, n - 1);
        if dry || there[n - 1] {
            rest
        } else {
            rest.push(leaving(pkgs[n - 1], channel))
        }
    }
}

/// A pacman switch: what is said, what is removed first, and what is installed.
pub struct PacmanSwitch {
    pub told: Vec<Told>,
    pub removal: Option<String>,
    pub install: String,
}

/// pacman aborts on a name the channel does not offer, and such a package's files collide: a
/// switch installs exactly what is offered and removes the rest first.
pub fn pacman_switch(
    pkgs: &Vec<String>,
    there: &Vec<bool>,
    dry: bool,
    channel: Option<Channel>,
) -> (s: PacmanSwitch)
    requires
        dry || there@.len() == pkgs@.len(),
    ensures
        ({
            let all = text::contents(pkgs@);
            let n = pkgs@.len() as int;
            let gone = offered(all, there@, dry, false, n);
            &&& ui::told_views(s.told@) == leavings(all, there@, dry, channel, n)
            &&& text::opt_string(s.removal) == if gone.len() > 0 {
                Some("sudo pacman -Rdd"@ + gone)
            } else {
                None
            }
            &&& s.install@ == "sudo pacman -S"@ + offered(all, there@, dry, true, n)
        }),
{
    let ghost all = text::contents(pkgs@);
    let mut want: String = String::new();
    let mut gone: String = String::new();
    let mut told: Vec<Told> = silence();
    let name: &str = match channel {
        Some(c) => c.as_str(),
        None => "target",
    };
    let mut i: usize = 0;
    while i < pkgs.len()
        invariant
            i <= pkgs@.len(),
            dry || there@.len() == pkgs@.len(),
            all == text::contents(pkgs@),
            name@ == (match channel {
                Some(c) => c.name(),
                None => "target"@,
            }),
            want@ == offered(all, there@, dry, true, i as int),
            gone@ == offered(all, there@, dry, false, i as int),
            ui::told_views(told@) == leavings(all, there@, dry, channel, i as int),
        decreases pkgs@.len() - i,
    {
        assert(all[i as int] == pkgs@[i as int]@);
        if dry || there[i] {
            want = want.concat(" ").concat(pkgs[i].as_str());
        } else {
            tell(
                &mut told,
                Told::Warn(
                    pkgs[i].clone().concat(" is not on the ").concat(name).concat(
                        " channel — removing it (the ",
                    ).concat(name).concat(" packages carry its files)"),
                ),
            );
            gone = gone.concat(" ").concat(pkgs[i].as_str());
        }
        i = i + 1;
    }
    let removal: Option<String> = if gone.as_str().is_empty() {
        None
    } else {
        Some("sudo pacman -Rdd".to_owned().concat(gone.as_str()))
    };
    PacmanSwitch { told, removal, install: "sudo pacman -S".to_owned().concat(want.as_str()) }
}

/// What trusting the certificate knows from the start.
pub struct TrustCtx {
    pub cert: String,
    pub db: String,
    /// How to get the tool on this box.
    pub hint: String,
    pub started: bool,
}

/// What the caller found out.
#[derive(Clone, Copy, Debug, PartialEq, Eq, Structural)]
pub enum TrustEvent {
    Begin,
    HasCertutil(bool),
    CertReady(bool),
    DbThere(bool),
    Added(bool),
}

/// What trusting the certificate asks for next.
pub enum TrustDeed {
    /// Ask whether the tool is there.
    AskCertutil,
    /// Wait for the certificate: the host writes it on its first start.
    AwaitCert { script: String },
    /// Ask whether the store is there.
    AskDb { file: String },
    /// Make the store if it is not there, drop the old entry, show the command and add the new
    /// one: a new identity replaces the old trust.
    Add { make_db: bool, db: String, db_arg: String, shown: String, cert: String },
    Done { told: Told, ran: bool },
}

/// What trusting the certificate asks for next.
#[verifier::ext_equal]
pub enum TrustView {
    AskCertutil,
    AwaitCert { script: Seq<char> },
    AskDb { file: Seq<char> },
    Add {
        make_db: bool,
        db: Seq<char>,
        db_arg: Seq<char>,
        shown: Seq<char>,
        cert: Seq<char>,
    },
    Done { told: ui::ToldView, ran: bool },
}

impl View for TrustDeed {
    type V = TrustView;

    open spec fn view(&self) -> TrustView {
        match *self {
            TrustDeed::AskCertutil => TrustView::AskCertutil,
            TrustDeed::AwaitCert { script } => TrustView::AwaitCert { script: script@ },
            TrustDeed::AskDb { file } => TrustView::AskDb { file: file@ },
            TrustDeed::Add { make_db, db, db_arg, shown, cert } => TrustView::Add {
                make_db,
                db: db@,
                db_arg: db_arg@,
                shown: shown@,
                cert: cert@,
            },
            TrustDeed::Done { told, ran } => TrustView::Done { told: told@, ran },
        }
    }
}

/// The command that adds the certificate.
pub open spec fn trust_line(cert: Seq<char>, db: Seq<char>) -> Seq<char> {
    "certutil -A -d sql:"@ + db + " -n "@ + CERT_NICK@ + " -t C,, -i "@ + cert
}

/// What trusting the certificate asks for after an event.
pub open spec fn trust_next(c: TrustCtx, e: TrustEvent) -> TrustView {
    match e {
        TrustEvent::Begin => TrustView::AskCertutil,
        TrustEvent::HasCertutil(there) => if !there {
            TrustView::Done {
                told: ui::ToldView::Warn(
                    "certutil is not installed, so the console keeps its browser warning — "@
                        + c.hint@ + " and re-run"@,
                ),
                ran: false,
            }
        } else if !c.started {
            TrustView::Done {
                told: ui::ToldView::Warn(
                    "the host is not running, so there is no certificate to trust yet — re-run once it is"@,
                ),
                ran: false,
            }
        } else {
            TrustView::AwaitCert {
                script: "for i in $(seq 20); do [ -r '"@ + c.cert@
                    + "' ] && exit 0; sleep 0.25; done; exit 1"@,
            }
        },
        TrustEvent::CertReady(ready) => if ready {
            TrustView::AskDb { file: c.db@ + "/cert9.db"@ }
        } else {
            TrustView::Done {
                told: ui::ToldView::Warn(
                    "the host has not written its certificate yet ("@ + c.cert@
                        + ") — re-run to trust it"@,
                ),
                ran: false,
            }
        },
        TrustEvent::DbThere(there) => TrustView::Add {
            make_db: !there,
            db: c.db@,
            db_arg: "sql:"@ + c.db@,
            shown: trust_line(c.cert@, c.db@),
            cert: c.cert@,
        },
        TrustEvent::Added(ok) => TrustView::Done {
            told: if ok {
                ui::ToldView::Fine(
                    "console certificate trusted — a Chromium that is already running picks it up on restart"@,
                )
            } else {
                ui::ToldView::Warn(
                    "certutil refused the certificate — the browser warning stays; click through once instead"@,
                )
            },
            ran: true,
        },
    }
}

fn trust_shown(cert: &str, db: &str) -> (s: String)
    ensures
        s@ == trust_line(cert@, db@),
{
    "certutil -A -d sql:".to_owned().concat(db).concat(" -n ").concat(CERT_NICK).concat(
        " -t C,, -i ",
    ).concat(cert)
}

/// Goes on with trusting the certificate.
pub fn trust_cert(c: &TrustCtx, e: TrustEvent) -> (d: TrustDeed)
    ensures
        d@ == trust_next(*c, e),
{
    match e {
        TrustEvent::Begin => TrustDeed::AskCertutil,
        TrustEvent::HasCertutil(there) => if !there {
            TrustDeed::Done {
                told: Told::Warn(
                    "certutil is not installed, so the console keeps its browser warning — ".to_owned().concat(
                        c.hint.as_str(),
                    ).concat(" and re-run"),
                ),
                ran: false,
            }
        } else if !c.started {
            TrustDeed::Done {
                told: Told::Warn(
                    "the host is not running, so there is no certificate to trust yet — re-run once it is".to_owned(),
                ),
                ran: false,
            }
        } else {
            TrustDeed::AwaitCert {
                script: "for i in $(seq 20); do [ -r '".to_owned().concat(c.cert.as_str()).concat(
                    "' ] && exit 0; sleep 0.25; done; exit 1",
                ),
            }
        },
        TrustEvent::CertReady(ready) => if ready {
            TrustDeed::AskDb { file: c.db.clone().concat("/cert9.db") }
        } else {
            TrustDeed::Done {
                told: Told::Warn(
                    "the host has not written its certificate yet (".to_owned().concat(
                        c.cert.as_str(),
                    ).concat(") — re-run to trust it"),
                ),
                ran: false,
            }
        },
        TrustEvent::DbThere(there) => TrustDeed::Add {
            make_db: !there,
            db: c.db.clone(),
            db_arg: "sql:".to_owned().concat(c.db.as_str()),
            shown: trust_shown(c.cert.as_str(), c.db.as_str()),
            cert: c.cert.clone(),
        },
        TrustEvent::Added(ok) => TrustDeed::Done {
            told: if ok {
                Told::Fine(
                    "console certificate trusted — a Chromium that is already running picks it up on restart".to_owned(),
                )
            } else {
                Told::Warn(
                    "certutil refused the certificate — the browser warning stays; click through once instead".to_owned(),
                )
            },
            ran: true,
        },
    }
}

/// A system upgrade is rewritten by its own rule, and once.
pub proof fn an_upgrade_is_rewritten_once(cmd: Seq<char>)
    requires
        text::begins(cmd, "sudo pacman -Syu "@),
    ensures
        unasking(cmd) == "sudo pacman -Syu --noconfirm "@ + cmd.skip(
            "sudo pacman -Syu "@.len() as int,
        ),
{
    reveal_strlit("sudo pacman -Syu ");
    reveal_strlit("flatpak install --user ");
    reveal_strlit("flatpak uninstall --user ");
    reveal_strlit("sudo apt install ");
    reveal_strlit("sudo dnf install ");
    assert(cmd.take("sudo pacman -Syu "@.len() as int)[5] == cmd[5]);
    assert(cmd.take("sudo pacman -Syu "@.len() as int)[0] == cmd[0]);
    if text::begins(cmd, "flatpak install --user "@) {
        assert(cmd.take("flatpak install --user "@.len() as int)[0] == cmd[0]);
    }
    if text::begins(cmd, "flatpak uninstall --user "@) {
        assert(cmd.take("flatpak uninstall --user "@.len() as int)[0] == cmd[0]);
    }
    if text::begins(cmd, "sudo apt install "@) {
        assert(cmd.take("sudo apt install "@.len() as int)[5] == cmd[5]);
    }
    if text::begins(cmd, "sudo dnf install "@) {
        assert(cmd.take("sudo dnf install "@.len() as int)[5] == cmd[5]);
    }
}

/// Once a hand-off has run, the run is over; a skipped one, or a dry run, goes on.
pub proof fn a_hand_off_that_ran_is_the_end(
    p: Seq<plan::PhaseView>,
    at: Place,
    ran: bool,
    dry: bool,
)
    requires
        is_place(p, at),
        p[at.phase as int].steps[at.step as int].ends_run,
    ensures
        ran && !dry ==> next_point(p, Point::Step(at), ran, dry) is None,
        at.step + 1 < p[at.phase as int].steps.len() && !(ran && !dry) ==> next_point(
            p,
            Point::Step(at),
            ran,
            dry,
        ) == Some(Point::Step(Place { phase: at.phase, step: (at.step + 1) as usize })),
{
}

/// The steps of a phase.
pub open spec fn steps_in(p: Seq<plan::PhaseView>, k: int) -> Seq<Point> {
    Seq::new(
        p[k].steps.len(),
        |j: int| Point::Step(Place { phase: k as usize, step: j as usize }),
    )
}

/// The first `n` phases from end to end: each heading, then its steps.
pub open spec fn tour(p: Seq<plan::PhaseView>, n: int) -> Seq<Point>
    decreases n,
{
    if n <= 0 {
        Seq::empty()
    } else {
        tour(p, n - 1).push(Point::Heading((n - 1) as usize)) + steps_in(p, n - 1)
    }
}

/// A dry run goes from a point of a stretch to the one after it, and from the last one to `end`.
spec fn goes_on(p: Seq<plan::PhaseView>, t: Seq<Point>, i: int, end: Option<Point>) -> bool {
    is_point(p, t[i]) && forall|ran: bool| #[trigger]
        next_point(p, t[i], ran, true) == if i + 1 < t.len() {
            Some(t[i + 1])
        } else {
            end
        }
}

proof fn lemma_tour(p: Seq<plan::PhaseView>, n: int)
    requires
        0 <= n <= p.len() <= usize::MAX,
        forall|k: int| 0 <= k < p.len() ==> (#[trigger] p[k]).steps.len() <= usize::MAX,
    ensures
        n > 0 ==> tour(p, n).len() > 0 && tour(p, n)[0] == Point::Heading(0),
        forall|i: int|
            0 <= i < tour(p, n).len() ==> #[trigger] goes_on(p, tour(p, n), i, heading_at(p, n)),
    decreases n,
{
    if n > 0 {
        lemma_tour(p, n - 1);
        let before = tour(p, n - 1);
        let t = tour(p, n);
        let m = before.len() as int;
        let steps = p[n - 1].steps;
        assert(t.len() == m + 1 + steps.len());
        assert forall|i: int| 0 <= i < t.len() implies #[trigger] goes_on(
            p,
            t,
            i,
            heading_at(p, n),
        ) by {
            if i < m {
                assert(t[i] == before[i]);
                assert(goes_on(p, before, i, heading_at(p, n - 1)));
                if i + 1 < m {
                    assert(t[i + 1] == before[i + 1]);
                } else {
                    assert(t[i + 1] == Point::Heading((n - 1) as usize));
                }
            } else if i == m {
                assert(t[i] == Point::Heading((n - 1) as usize));
                if steps.len() > 0 {
                    assert(t[i + 1] == steps_in(p, n - 1)[0]);
                }
            } else {
                let j = i - m - 1;
                assert(t[i] == steps_in(p, n - 1)[j]);
                if j + 1 < steps.len() {
                    assert(t[i + 1] == steps_in(p, n - 1)[j + 1]);
                }
            }
        }
    }
}

/// A dry run goes through the whole plan, whatever its steps did: every heading in order, one
/// without steps too, and below it every step, a hand-off and what follows it among them.
pub proof fn a_dry_run_walks_the_whole_plan(p: Seq<plan::PhaseView>, i: int, ran: bool)
    requires
        p.len() <= usize::MAX,
        forall|k: int| 0 <= k < p.len() ==> (#[trigger] p[k]).steps.len() <= usize::MAX,
        0 <= i < tour(p, p.len() as int).len(),
    ensures
        heading_at(p, 0) == Some(tour(p, p.len() as int)[0]),
        next_point(p, tour(p, p.len() as int)[i], ran, true) == if i + 1 < tour(
            p,
            p.len() as int,
        ).len() {
            Some(tour(p, p.len() as int)[i + 1])
        } else {
            None
        },
{
    lemma_tour(p, p.len() as int);
    assert(goes_on(p, tour(p, p.len() as int), i, heading_at(p, p.len() as int)));
}

/// A dry run starts nothing, writes nothing and asks of nothing but the user manager, and it fails
/// only on a channel switch without packages. A command is shown in the form a real run starts,
/// its program there or not.
pub proof fn a_dry_run_changes_nothing(
    action: plan::ActionView,
    facts: Facts,
    choices: Choices,
    opts: Opts,
    files: Files,
)
    requires
        opts.dry,
    ensures
        match deed_of(action, facts, choices, opts, files) {
            DeedView::Run(s) => !s.spawn,
            DeedView::Say { .. } | DeedView::Nothing { .. } | DeedView::StartUnits => true,
            DeedView::Fail(_) => true,
            _ => false,
        },
        deed_of(action, facts, choices, opts, files) is Fail <==> (action matches
            plan::ActionView::AptSwitch { pkgs } && pkgs.len() == 0),
        action matches plan::ActionView::Run(cmd) ==> deed_of(action, facts, choices, opts, files)
            == DeedView::Run(shell_of(cmd, opts)),
        action matches plan::ActionView::RunIfPresent { cmd, .. } ==> deed_of(
            action,
            facts,
            choices,
            opts,
            files,
        ) == DeedView::Run(shell_of(cmd, opts)),
{
    if let plan::ActionView::AptSwitch { pkgs } = action {
        if pkgs.len() > 0 {
            reveal_strlit(" ");
        }
    }
}

/// Setting a key twice leaves the second value: the first line is found again and replaced, and
/// no second line for the key is written.
pub proof fn a_key_is_set_in_place(
    lines: Seq<Seq<char>>,
    key: Seq<char>,
    a: Seq<char>,
    b: Seq<char>,
)
    ensures
        env_lines(env_lines(lines, key, a), key, b) == env_lines(lines, key, b),
{
    let once = env_lines(lines, key, a);
    let at = env_at(lines, key);
    let line = key + "="@ + a;
    lemma_first_with(lines, key + "="@, 0);
    assert(text::begins(line, key + "="@)) by {
        assert(line.take((key + "="@).len() as int) =~= key + "="@);
    }
    assert(once[at] == line);
    assert forall|i: int| 0 <= i < at implies once[i] == lines[i] by {}
    lemma_first_is(once, key + "="@, 0, at);
    assert(env_lines(once, key, b) =~= env_lines(lines, key, b));
}

proof fn lemma_first_with(list: Seq<Seq<char>>, p: Seq<char>, k: int)
    requires
        0 <= k <= list.len(),
    ensures
        k <= text::first_with(list, p, k) <= list.len(),
        forall|i: int| k <= i < text::first_with(list, p, k) ==> !text::begins(#[trigger] list[i], p),
    decreases list.len() - k,
{
    if k < list.len() && !text::begins(list[k], p) {
        lemma_first_with(list, p, k + 1);
    }
}

proof fn lemma_first_is(list: Seq<Seq<char>>, p: Seq<char>, k: int, at: int)
    requires
        0 <= k <= at < list.len(),
        text::begins(list[at], p),
        forall|i: int| k <= i < at ==> !text::begins(#[trigger] list[i], p),
    ensures
        text::first_with(list, p, k) == at,
    decreases at - k,
{
    if k < at {
        lemma_first_is(list, p, k + 1, at);
    }
}

/// A line that begins with one form goes on in another.
pub open spec fn reworded(cmd: Seq<char>, s: Seq<char>, from: Seq<char>, to: Seq<char>) -> bool {
    text::begins(cmd, from) && s == to + cmd.skip(from.len() as int)
}

/// A package manager's line is put in the form that does not ask, its words kept; every other
/// line stays as it is.
pub proof fn a_package_manager_does_not_ask(cmd: &str, s: String)
    requires
        call_ensures(noninteractive, (cmd,), s),
    ensures
        ({
            let c = cmd@;
            ||| reworded(c, s@, "flatpak install --user "@, "flatpak install --user -y "@)
            ||| reworded(c, s@, "flatpak uninstall --user "@, "flatpak uninstall --user -y "@)
            ||| reworded(c, s@, "sudo apt install "@, "sudo apt install -y "@)
            ||| reworded(c, s@, "sudo dnf install "@, "sudo dnf install -y "@)
            ||| reworded(c, s@, "sudo pacman -Syu "@, "sudo pacman -Syu --noconfirm "@)
            ||| reworded(c, s@, "sudo pacman -S "@, "sudo pacman -S --noconfirm "@)
            ||| reworded(c, s@, "sudo dnf distro-sync "@, "sudo dnf distro-sync -y "@)
            ||| reworded(c, s@, "sudo apt purge "@, "sudo apt purge -y "@)
            ||| reworded(c, s@, "sudo dnf remove "@, "sudo dnf remove -y "@)
            ||| reworded(c, s@, "sudo pacman -Rns "@, "sudo pacman -Rns --noconfirm "@)
            ||| reworded(c, s@, "sudo pacman -Rdd "@, "sudo pacman -Rdd --noconfirm "@)
            ||| s@ == c
        }),
        s@ == cmd@ <==> !(text::begins(cmd@, "flatpak install --user "@) || text::begins(
            cmd@,
            "flatpak uninstall --user "@,
        ) || text::begins(cmd@, "sudo apt install "@) || text::begins(cmd@, "sudo dnf install "@)
            || text::begins(cmd@, "sudo pacman -Syu "@) || text::begins(cmd@, "sudo pacman -S "@)
            || text::begins(cmd@, "sudo dnf distro-sync "@) || text::begins(
            cmd@,
            "sudo apt purge "@,
        ) || text::begins(cmd@, "sudo dnf remove "@) || text::begins(cmd@, "sudo pacman -Rns "@)
            || text::begins(cmd@, "sudo pacman -Rdd "@)),
{
    reveal_strlit("flatpak install --user ");
    reveal_strlit("flatpak install --user -y ");
    reveal_strlit("flatpak uninstall --user ");
    reveal_strlit("flatpak uninstall --user -y ");
    reveal_strlit("sudo apt install ");
    reveal_strlit("sudo apt install -y ");
    reveal_strlit("sudo dnf install ");
    reveal_strlit("sudo dnf install -y ");
    reveal_strlit("sudo pacman -Syu ");
    reveal_strlit("sudo pacman -Syu --noconfirm ");
    reveal_strlit("sudo pacman -S ");
    reveal_strlit("sudo pacman -S --noconfirm ");
    reveal_strlit("sudo dnf distro-sync ");
    reveal_strlit("sudo dnf distro-sync -y ");
    reveal_strlit("sudo apt purge ");
    reveal_strlit("sudo apt purge -y ");
    reveal_strlit("sudo dnf remove ");
    reveal_strlit("sudo dnf remove -y ");
    reveal_strlit("sudo pacman -Rns ");
    reveal_strlit("sudo pacman -Rns --noconfirm ");
    reveal_strlit("sudo pacman -Rdd ");
    reveal_strlit("sudo pacman -Rdd --noconfirm ");
    if let Some(r) = rewritten(cmd@) {
        assert(r.1.len() > r.0.len());
        assert(s@.len() > cmd@.len());
    }
}

/// A command is started exactly in a real run, and shown in the form that does not ask, on the
/// terminal and as quietly as was asked for.
pub proof fn a_command_is_started_in_a_real_run(e: &Executor, cmd: &str, s: Shell, t: String)
    requires
        call_ensures(Executor::shell, (e, cmd), s),
        call_ensures(noninteractive, (cmd,), t),
    ensures
        s.cmd@ == t@,
        s.spawn <==> !e.opts.dry,
        s.tty == e.opts.tty,
        s.quiet == e.opts.quiet,
{
}

/// A run begins with nobody to log in again, and counts as started only with a host to start.
pub proof fn a_run_begins_at_the_first_heading(
    opts: Opts,
    c: &Choices,
    e: Executor,
    plan: &Plan,
    at: Option<Point>,
)
    requires
        call_ensures(Executor::new, (opts, c), e),
        call_ensures(Executor::first, (plan,), at),
    ensures
        e.opts == opts,
        !e.outcome.relogin,
        e.outcome.started <==> c.toggles.start && c.components.host,
        plan@.len() > 0 ==> at == Some(Point::Heading(0)),
        plan@.len() == 0 ==> at is None,
{
}

/// A run goes from a heading to its first step, from a step to the next, and from the last to the
/// next heading; a hand-off that ran ends a real run, and nothing else does before the end.
pub proof fn a_run_leaves_nothing_out(
    e: &Executor,
    plan: &Plan,
    at: Point,
    ran: bool,
    to: Option<Point>,
)
    requires
        call_ensures(Executor::next, (e, plan, at, ran), to),
        is_point(plan@, at),
    ensures
        at matches Point::Heading(k) ==> {
            &&& plan@[k as int].steps.len() > 0 ==> to == Some(
                Point::Step(Place { phase: k, step: 0 }),
            )
            &&& plan@[k as int].steps.len() == 0 && k + 1 < plan@.len() ==> to == Some(
                Point::Heading((k + 1) as usize),
            )
            &&& plan@[k as int].steps.len() == 0 && k + 1 == plan@.len() ==> to is None
        },
        at matches Point::Step(s) ==> {
            let x = plan@[s.phase as int].steps;
            let ends = x[s.step as int].ends_run && ran && !e.opts.dry;
            &&& ends ==> to is None
            &&& !ends && s.step + 1 < x.len() ==> to == Some(
                Point::Step(Place { phase: s.phase, step: (s.step + 1) as usize }),
            )
            &&& !ends && s.step + 1 == x.len() && s.phase + 1 < plan@.len() ==> to == Some(
                Point::Heading((s.phase + 1) as usize),
            )
            &&& !ends && s.step + 1 == x.len() && s.phase + 1 == plan@.len() ==> to is None
        },
{
}

/// A dry run starts nothing and writes nothing; a real one does what the step says. Nobody has to
/// log in again but for a change of groups.
pub proof fn a_step_is_done_as_it_says(
    e: &mut Executor,
    action: &StepAction,
    facts: &Facts,
    c: &Choices,
    files: &Files,
    d: Deed,
)
    requires
        call_ensures(Executor::step, (e, action, facts, c, files), d),
    ensures
        final(e).opts == old(e).opts,
        final(e).outcome.started == old(e).outcome.started,
        old(e).outcome.relogin ==> final(e).outcome.relogin,
        final(e).outcome.relogin && !old(e).outcome.relogin ==> (*action matches StepAction::Run(cmd)
            && (text::holds(cmd@, "usermod -aG"@) || text::holds(cmd@, "add-user-to-input-group"@)
            || text::holds(cmd@, "steamdeck/install.sh"@))),
        *action matches StepAction::Run(cmd) ==> (d@ matches DeedView::Run(s) && s.spawn == !old(e).opts.dry && s.cmd == unasking(cmd@)) && (text::holds(cmd@, "usermod -aG"@)
            ==> final(e).outcome.relogin),
        old(e).opts.dry ==> !(d is IfPresent || d is Env || d is Setting || d is Password || d
            is AptSwitch || d is PacmanSwitch || d is TrustCert),
        old(e).opts.dry ==> (d@ matches DeedView::Run(s) ==> !s.spawn),
        !old(e).opts.dry ==> {
            &&& *action matches StepAction::SetEnv { key, value } ==> d@ == (DeedView::Env {
                key: key@,
                value: value@,
            })
            &&& *action matches StepAction::SetSetting { id, to } ==> d@ == (DeedView::Setting {
                id: id@,
                to: to@,
            })
            &&& *action matches StepAction::RunIfPresent { program, cmd, warn_if_missing } ==> (
            d@ matches DeedView::IfPresent { program: p, shell, otherwise } && p == program@
                && shell.cmd == unasking(cmd@) && shell.spawn && otherwise == text::opt_string(
                warn_if_missing,
            ))
            &&& *action is AptSwitch <==> d is AptSwitch
            &&& *action is PacmanSwitch <==> d is PacmanSwitch
            &&& *action is TrustCert <==> d is TrustCert
            &&& *action is WebPassword && c.web_password is Some ==> d@ == (DeedView::Password {
                body: "PUNKTFUNK_UI_PASSWORD="@ + c.web_password->0@ + "\n"@,
            })
        },
        *action is WebPassword && c.web_password is None ==> d@ == (DeedView::Nothing {
            ran: false,
        }),
        *action is StartUnits <==> d is StartUnits,
        *action matches StepAction::Note(Level::Good, t) ==> d@ == (DeedView::Say {
            told: ui::ToldView::Fine(t@),
            ran: false,
        }),
        *action matches StepAction::Note(Level::Warn, t) ==> d@ == (DeedView::Say {
            told: ui::ToldView::Warn(t@),
            ran: false,
        }),
        *action is Linger && (old(e).opts.dry || facts.systemd_pid1) ==> (
        d@ matches DeedView::Run(s) && s.cmd == unasking("sudo loginctl enable-linger \"$USER\""@)),
        *action is Linger && !old(e).opts.dry && !facts.systemd_pid1 ==> (
        d@ matches DeedView::Say { told, ran } && told is Warn && !ran),
{
}

/// The password is said nowhere: what a dry run tells of it is the same whichever it is.
pub proof fn a_dry_run_does_not_tell_the_password(
    e: &mut Executor,
    f: &mut Executor,
    action: &StepAction,
    facts: &Facts,
    a: &Choices,
    b: &Choices,
    files: &Files,
    x: Deed,
    y: Deed,
)
    requires
        old(e).opts.dry,
        *old(f) == *old(e),
        *action is WebPassword,
        a.web_password is Some && b.web_password is Some,
        call_ensures(Executor::step, (e, action, facts, a, files), x),
        call_ensures(Executor::step, (f, action, facts, b, files), y),
    ensures
        x@ == y@,
        x is Say,
{
}

/// The units are started by one line that names each, and only with a manager; without one the
/// run does not count as started and says what to do.
pub proof fn units_need_their_manager(
    e: &mut Executor,
    units: &Vec<String>,
    live: bool,
    r: Result<Shell, Vec<Told>>,
    names: String,
    sep: &str,
)
    requires
        call_ensures(Executor::start_units, (e, units, live), r),
        sep@ == " "@,
        call_ensures(text::join, (units, sep), names),
    ensures
        r is Ok <==> live,
        r matches Ok(s) ==> s.spawn == !old(e).opts.dry && s.cmd@ == unasking(
            "systemctl --user enable --now "@ + names@,
        ),
        r matches Err(v) ==> v@.len() == 2 && v@[0] is Warn && v@[1] is Detail,
        final(e).outcome.started <==> old(e).outcome.started && live,
        final(e).outcome.relogin == old(e).outcome.relogin,
        final(e).opts == old(e).opts,
{
    if let Err(v) = r {
        let t = ui::told_views(v@);
        assert(t.len() == v@.len());
        assert(t[0] == v@[0]@ && t[1] == v@[1]@);
    }
}

/// A failure names the page to follow; what a quiet run held back is shown from its last thirty
/// lines on, and only those count.
pub proof fn a_failure_shows_the_last_thirty_lines(
    page: &str,
    output: &Vec<String>,
    tail: &Vec<String>,
    loud: Failed,
    quiet: Failed,
    short: Failed,
    n: int,
)
    requires
        call_ensures(step_failed, (page, false, output), loud),
        call_ensures(step_failed, (page, true, output), quiet),
        call_ensures(step_failed, (page, true, tail), short),
        n == output@.len(),
        n > 30 ==> tail@ == output@.skip(n - 30),
        n <= 30 ==> tail@ == output@,
    ensures
        text::ends(loud.0@, page@),
        text::begins(quiet.0@, loud.0@),
        n == 0 ==> quiet.0@ == loud.0@,
        n > 0 ==> text::ends(quiet.0@, output@.last()@),
        quiet.0@ == short.0@,
        n > 0 ==> quiet.0@.len() > loud.0@.len(),
{
    let all = text::contents(output@);
    let few = text::contents(tail@);
    assert(all.len() == output@.len() && few.len() == tail@.len());
    let said = loud.0@;
    assert(said.skip(said.len() - page@.len()) =~= page@);
    if n > 30 {
        assert(few =~= all.skip(n - 30));
        assert(few.skip(0) =~= few);
    } else {
        assert(few =~= all);
    }
    if n > 0 {
        let k: int = if n > 30 {
            n - 30
        } else {
            0
        };
        let t = all.skip(k);
        assert(t.last() == all[n - 1]);
        assert(all[n - 1] == output@.last()@);
        let head = said + "\n   the step's last lines:"@;
        let q = quiet.0@;
        let last = output@.last()@;
        reveal_strlit("\n   the step's last lines:");
        let rest = head + (tail_text(t.drop_last()) + "\n     "@);
        assert(q =~= rest + last);
        assert(q.skip(q.len() - last.len()) =~= last);
        assert(q.take(said.len() as int) =~= said);
    } else {
        assert(quiet.0@.take(said.len() as int) =~= said);
    }
}

/// A key is set in one line: the first that set it is replaced, every other stays where it is,
/// and where none did the line goes to the end.
pub proof fn a_key_is_set_and_the_rest_stays(
    existing: &str,
    key: &str,
    value: &str,
    body: String,
    lines: Vec<&str>,
    at: int,
)
    requires
        call_ensures(set_env, (existing, key, value), body),
        call_ensures(text::lines, (existing,), lines),
        0 <= at <= lines@.len(),
        at < lines@.len() ==> text::begins(lines@[at]@, key@ + "="@),
        forall|i: int| 0 <= i < at ==> !text::begins((#[trigger] lines@[i])@, key@ + "="@),
    ensures
        at < lines@.len() ==> body@ == text::joined(
            text::views(lines@).update(at, key@ + "="@ + value@),
            "\n"@,
        ) + "\n"@,
        at == lines@.len() ==> body@ == text::joined(
            text::views(lines@).push(key@ + "="@ + value@),
            "\n"@,
        ) + "\n"@,
{
    let l = text::views(lines@);
    assert(l.len() == lines@.len());
    assert forall|i: int| 0 <= i < at implies !text::begins(#[trigger] l[i], key@ + "="@) by {
        assert(l[i] == lines@[i]@);
    }
    if at < lines@.len() {
        assert(l[at] == lines@[at]@);
        lemma_first_is(l, key@ + "="@, 0, at);
    } else {
        lemma_first_with(l, key@ + "="@, 0);
        let f = text::first_with(l, key@ + "="@, 0);
        lemma_first_fits(l, key@ + "="@, 0);
        if f < l.len() {
            assert(!text::begins(l[f], key@ + "="@));
        }
    }
}

proof fn lemma_first_fits(list: Seq<Seq<char>>, p: Seq<char>, k: int)
    requires
        0 <= k <= list.len(),
    ensures
        text::first_with(list, p, k) < list.len() ==> text::begins(
            list[text::first_with(list, p, k)],
            p,
        ),
    decreases list.len() - k,
{
    if k < list.len() && !text::begins(list[k], p) {
        lemma_first_fits(list, p, k + 1);
    }
}

/// What is said of an environment line is what came of it: a promise in a dry run, the line where
/// it was written, a warning where it was not.
pub proof fn a_line_is_told_as_it_went(
    key: &str,
    value: &str,
    shown: &str,
    dry: Told,
    done: Told,
    lost: Told,
)
    requires
        call_ensures(tell_env, (true, false, key, value, shown), dry),
        call_ensures(tell_env, (false, true, key, value, shown), done),
        call_ensures(tell_env, (false, false, key, value, shown), lost),
    ensures
        dry@ == ui::ToldView::Fine("would set "@ + key@ + "="@ + value@ + " in "@ + shown@),
        done@ == ui::ToldView::Fine(key@ + "="@ + value@ + " → "@ + shown@),
        lost@ == ui::ToldView::Warn("couldn't write "@ + shown@),
{
}

/// The password's file is one line with the password, and what is said of it holds the file and
/// the reason but never the password.
pub proof fn a_password_is_written_and_not_told(
    password: &str,
    body: String,
    shown: &str,
    why: &str,
    dry: Told,
    done: Told,
    lost: Told,
)
    requires
        call_ensures(password_body, (password,), body),
        call_ensures(tell_password, (true, None::<&str>, shown), dry),
        call_ensures(tell_password, (false, None::<&str>, shown), done),
        call_ensures(tell_password, (false, Some(why), shown), lost),
    ensures
        body@ == "PUNKTFUNK_UI_PASSWORD="@ + password@ + "\n"@,
        dry@ == ui::ToldView::Fine("would write your password to "@ + shown@),
        done@ == ui::ToldView::Fine("your password → "@ + shown@),
        lost@ == ui::ToldView::Warn(
            "couldn't write "@ + shown@ + " — "@ + why@
                + "; the console will generate one instead"@,
        ),
{
}

/// Each package that apt offers is pinned to the version of its row, and the switch fails exactly
/// where none is offered.
pub proof fn what_apt_offers_is_pinned(
    pkgs: &Vec<String>,
    rows: &Vec<Option<String>>,
    channel: Channel,
    r: Result<String, Failed>,
    i: int,
)
    requires
        rows@.len() == pkgs@.len(),
        call_ensures(apt_switch, (pkgs, rows, false, channel), r),
        0 <= i < pkgs@.len(),
    ensures
        rows@[i] matches Some(l) ==> text::words(l@).len() >= 3 ==> r is Ok && text::holds(
            r->Ok_0@,
            " "@ + pkgs@[i]@ + "="@ + text::words(l@)[2],
        ),
        (forall|k: int|
            0 <= k < rows@.len() ==> ((#[trigger] rows@[k]) matches Some(l) ==> text::words(l@).len()
                < 3)) ==> r is Err,
        r matches Ok(cmd) ==> text::begins(cmd@, "sudo apt install --allow-downgrades"@),
{
    let all = text::contents(pkgs@);
    let n = pkgs@.len() as int;
    let pins = pins_of(all, rows@, false, n);
    assert(all[i] == pkgs@[i]@);
    let head = "sudo apt install --allow-downgrades"@;
    if let Some(l) = rows@[i] {
        if text::words(l@).len() >= 3 {
            let x = " "@ + pkgs@[i]@ + "="@ + text::words(l@)[2];
            lemma_pinned(all, rows@, n, i, x);
            reveal_strlit(" ");
            assert(x.len() > 0);
            let at = choose|at: int|
                0 <= at && at + x.len() <= pins.len() && #[trigger] pins.subrange(at, at + x.len())
                    == x;
            assert(pins.len() > 0);
            let cmd = head + pins;
            let off = head.len() + at;
            assert(cmd.subrange(off, off + x.len()) =~= x);
        }
    }
    if forall|k: int|
        0 <= k < rows@.len() ==> ((#[trigger] rows@[k]) matches Some(l) ==> text::words(l@).len()
            < 3) {
        lemma_no_pins(all, rows@, n);
    }
    if let Ok(cmd) = r {
        assert(cmd@.take(head.len() as int) =~= head);
    }
}

proof fn lemma_no_pins(pkgs: Seq<Seq<char>>, rows: Seq<Option<String>>, n: int)
    requires
        0 <= n <= rows.len(),
        forall|k: int|
            0 <= k < rows.len() ==> ((#[trigger] rows[k]) matches Some(l) ==> text::words(l@).len()
                < 3),
    ensures
        pins_of(pkgs, rows, false, n).len() == 0,
    decreases n,
{
    if n > 0 {
        lemma_no_pins(pkgs, rows, n - 1);
        assert(version_in(text::opt_string(rows[n - 1])) is None);
    }
}

proof fn lemma_pinned(
    pkgs: Seq<Seq<char>>,
    rows: Seq<Option<String>>,
    n: int,
    i: int,
    x: Seq<char>,
)
    requires
        0 <= i < n <= rows.len(),
        rows.len() == pkgs.len(),
        version_in(text::opt_string(rows[i])) matches Some(v) && x == " "@ + pkgs[i] + "="@ + v,
    ensures
        text::holds(pins_of(pkgs, rows, false, n), x),
    decreases n,
{
    let all = pins_of(pkgs, rows, false, n);
    let rest = pins_of(pkgs, rows, false, n - 1);
    if i < n - 1 {
        lemma_pinned(pkgs, rows, n - 1, i, x);
        let at = choose|at: int|
            0 <= at && at + x.len() <= rest.len() && #[trigger] rest.subrange(at, at + x.len())
                == x;
        assert(all.subrange(at, at + x.len()) =~= rest.subrange(at, at + x.len()));
    } else {
        let at = rest.len() as int;
        assert(all =~= rest + x);
        assert(all.subrange(at, at + x.len()) =~= x);
    }
}

/// pacman installs exactly what is offered and removes the rest first, telling of each; nothing is
/// removed where everything is offered.
pub proof fn pacman_takes_what_is_offered(
    pkgs: &Vec<String>,
    there: &Vec<bool>,
    channel: Option<Channel>,
    s: PacmanSwitch,
    i: int,
)
    requires
        there@.len() == pkgs@.len(),
        call_ensures(pacman_switch, (pkgs, there, false, channel), s),
        0 <= i < pkgs@.len(),
    ensures
        text::begins(s.install@, "sudo pacman -S"@),
        there@[i] ==> text::holds(s.install@, " "@ + pkgs@[i]@),
        !there@[i] ==> s.removal is Some && text::begins(s.removal->0@, "sudo pacman -Rdd"@)
            && text::holds(s.removal->0@, " "@ + pkgs@[i]@) && s.told@.len() > 0,
        (forall|k: int| 0 <= k < there@.len() ==> #[trigger] there@[k]) ==> s.removal is None
            && s.told@.len() == 0,
{
    let all = text::contents(pkgs@);
    let n = pkgs@.len() as int;
    assert(all[i] == pkgs@[i]@);
    let x = " "@ + pkgs@[i]@;
    reveal_strlit(" ");
    lemma_named(all, there@, there@[i], n, i);
    assert(ui::told_views(s.told@).len() == s.told@.len());
    let want = offered(all, there@, false, true, n);
    let gone = offered(all, there@, false, false, n);
    let a = "sudo pacman -S"@;
    let b = "sudo pacman -Rdd"@;
    assert((a + want).take(a.len() as int) =~= a);
    assert((b + gone).take(b.len() as int) =~= b);
    if there@[i] {
        let at = choose|at: int|
            0 <= at && at + x.len() <= want.len() && #[trigger] want.subrange(at, at + x.len())
                == x;
        let off = a.len() + at;
        assert((a + want).subrange(off, off + x.len()) =~= x);
    } else {
        let at = choose|at: int|
            0 <= at && at + x.len() <= gone.len() && #[trigger] gone.subrange(at, at + x.len())
                == x;
        assert(gone.len() > 0);
        let off = b.len() + at;
        assert((b + gone).subrange(off, off + x.len()) =~= x);
        lemma_told_of(all, there@, channel, n, i);
    }
    if forall|k: int| 0 <= k < there@.len() ==> #[trigger] there@[k] {
        lemma_all_there(all, there@, channel, n);
    }
}

proof fn lemma_named(pkgs: Seq<Seq<char>>, there: Seq<bool>, want: bool, n: int, i: int)
    requires
        0 <= i < n <= there.len(),
        there.len() == pkgs.len(),
        there[i] == want,
    ensures
        text::holds(offered(pkgs, there, false, want, n), " "@ + pkgs[i]),
    decreases n,
{
    let all = offered(pkgs, there, false, want, n);
    let rest = offered(pkgs, there, false, want, n - 1);
    let x = " "@ + pkgs[i];
    if i < n - 1 {
        lemma_named(pkgs, there, want, n - 1, i);
        let at = choose|at: int|
            0 <= at && at + x.len() <= rest.len() && #[trigger] rest.subrange(at, at + x.len())
                == x;
        assert(all.subrange(at, at + x.len()) =~= rest.subrange(at, at + x.len()));
    } else {
        let at = rest.len() as int;
        assert(all =~= rest + x);
        assert(all.subrange(at, at + x.len()) =~= x);
    }
}

proof fn lemma_told_of(
    pkgs: Seq<Seq<char>>,
    there: Seq<bool>,
    channel: Option<Channel>,
    n: int,
    i: int,
)
    requires
        0 <= i < n <= there.len(),
        !there[i],
    ensures
        leavings(pkgs, there, false, channel, n).len() > 0,
    decreases n,
{
    if i < n - 1 {
        lemma_told_of(pkgs, there, channel, n - 1, i);
    }
}

proof fn lemma_all_there(pkgs: Seq<Seq<char>>, there: Seq<bool>, channel: Option<Channel>, n: int)
    requires
        0 <= n <= there.len(),
        forall|k: int| 0 <= k < there.len() ==> #[trigger] there[k],
    ensures
        leavings(pkgs, there, false, channel, n).len() == 0,
        offered(pkgs, there, false, false, n).len() == 0,
    decreases n,
{
    if n > 0 {
        lemma_all_there(pkgs, there, channel, n - 1);
        assert(there[n - 1]);
    }
}

/// A certificate is trusted only with the tool, a host that was started and a certificate that it
/// wrote; the store is made only where there is none. What was found out decides, in that order.
pub proof fn trust_takes_its_steps_in_order(c: &TrustCtx, e: TrustEvent, d: TrustDeed)
    requires
        call_ensures(trust_cert, (c, e), d),
    ensures
        e is Begin <==> d is AskCertutil,
        d is AwaitCert <==> e == TrustEvent::HasCertutil(true) && c.started,
        d is AskDb <==> e == TrustEvent::CertReady(true),
        d is Add <==> e is DbThere,
        d@ matches TrustView::Add { make_db, db, db_arg, shown, cert } ==> {
            &&& make_db <==> e == TrustEvent::DbThere(false)
            &&& db == c.db@ && cert == c.cert@ && db_arg == "sql:"@ + c.db@
            &&& shown == "certutil -A -d sql:"@ + c.db@ + " -n "@ + "punktfunk-console"@
                + " -t C,, -i "@ + c.cert@
        },
        d@ matches TrustView::AskDb { file } ==> file == c.db@ + "/cert9.db"@,
        d@ matches TrustView::AwaitCert { script } ==> script == "for i in $(seq 20); do [ -r '"@
            + c.cert@ + "' ] && exit 0; sleep 0.25; done; exit 1"@,
        d@ matches TrustView::Done { told, ran } ==> {
            &&& ran <==> e is Added
            &&& told is Fine <==> e == TrustEvent::Added(true)
            &&& !(told is Fine) ==> told is Warn
        },
{
}

} // verus!
