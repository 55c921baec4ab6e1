//! From what was found and what was chosen on Windows to what will be done.
//!
//! Every path in a step is text: a plan reads the same on every system. The order of the phases
//! carries: stop, files, uninstaller, registry, network, coexistence, drivers, service, console,
//! plugin runner, restore, tray, driver check. `<staging>` and its like stand for what the
//! executor fills in.

use crate::setup::facts::DOCS;
use crate::setup::plan::Level;
use crate::setup::platform;
use crate::setup::platform::windows::{
    Artifact, NetworkAnswer, TaskState, WinChoices, WinFacts, MGMT_PORT_MOVED,
};
use crate::setup::platform::Catalogue;
use crate::text;
use crate::text::Sep;
use vstd::prelude::*;
use vstd::string::StringExecFns;

verus! {

/// Where the host goes. The updater knows an install by this path.
pub const DEFAULT_HOST_DIR: &'static str = "C:\\Program Files\\punktfunk";

/// Where the client goes; the executor fills in the profile.
pub const DEFAULT_CLIENT_DIR: &'static str = "%LocalAppData%\\Programs\\Punktfunk";

/// The client's entry among the installed programs; package managers track this name.
pub const CLIENT_ARP_KEY: &'static str =
    "HKCU\\SOFTWARE\\Microsoft\\Windows\\CurrentVersion\\Uninstall\\{52464E61-68A1-4621-B6B3-5B8BBB823D1A}_is1";

/// The oldest build the host's virtual display starts on. The client has no floor.
pub const MIN_HOST_BUILD: u32 = 22621;

/// The registry keys of the host's tray, its notifications and the graphics layer.
pub const RUN_KEY: &'static str = "HKLM\\SOFTWARE\\Microsoft\\Windows\\CurrentVersion\\Run";

pub const AUMID_KEY: &'static str =
    "HKLM\\SOFTWARE\\Classes\\AppUserModelId\\unom.punktfunk.tray";

pub const LAYERS_KEY: &'static str = "HKLM\\SOFTWARE\\Khronos\\Vulkan\\ImplicitLayers";

/// The client's link protocol.
pub const PROTO_KEY: &'static str = "HKCU\\Software\\Classes\\punktfunk";

/// The links the client lays down. Uninstalling deletes all three: a link that was never made is
/// no loss.
pub const LINK_START: &'static str = "<start menu>\\Punktfunk.lnk";

pub const LINK_CONSOLE: &'static str = "<start menu>\\Punktfunk Console.lnk";

pub const LINK_DESKTOP: &'static str = "<desktop>\\Punktfunk.lnk";

/// A step. A program is started with its arguments, never by a shell line.
pub enum WinAction {
    Run(Vec<String>),
    /// The same; a failure is fine, because absence is the goal.
    RunLenient(Vec<String>),
    /// Stops the run before it touches the box.
    Refuse(String),
    Note(Level, String),
    DeployFiles { dest: String },
    RemoveFiles { dir: String },
    /// Absent files are fine.
    DeleteFiles { paths: Vec<String> },
    PathAdd { machine: bool, dir: String },
    PathRemove { machine: bool, dir: String },
    ArpRegister { key: String, display_name: String, version: String, location: String },
    ArpRemove { key: String },
    Shortcut { link: String, target: String },
    /// Only by consent.
    MakeNetworkPrivate { network: String },
    /// Stops whatever holds the files open, and waits.
    StopHostRuntime { app_dir: String },
    /// Enables again only what was enabled before the stop; unset for a task that did not exist.
    RestoreTasks { web_enabled: Option<bool>, scripting_enabled: Option<bool> },
    /// The password travels in a guarded file, never as an argument.
    WebSetup { app_dir: String, fresh_password: bool },
    /// Starts it only on a first registration.
    RegisterScriptingTask { app_dir: String, start_now: bool },
    LaunchTray { exe: String },
    /// A failure warns and points at the documentation.
    EnsureAppRuntime { arch: String },
    KillPortListeners { ports: Vec<u16> },
}

/// A step.
#[verifier::ext_equal]
pub enum WinView {
    Run(Seq<Seq<char>>),
    RunLenient(Seq<Seq<char>>),
    Refuse(Seq<char>),
    Note(Level, Seq<char>),
    DeployFiles { dest: Seq<char> },
    RemoveFiles { dir: Seq<char> },
    DeleteFiles { paths: Seq<Seq<char>> },
    PathAdd { machine: bool, dir: Seq<char> },
    PathRemove { machine: bool, dir: Seq<char> },
    ArpRegister {
        key: Seq<char>,
        display_name: Seq<char>,
        version: Seq<char>,
        location: Seq<char>,
    },
    ArpRemove { key: Seq<char> },
    Shortcut { link: Seq<char>, target: Seq<char> },
    MakeNetworkPrivate { network: Seq<char> },
    StopHostRuntime { app_dir: Seq<char> },
    RestoreTasks { web_enabled: Option<bool>, scripting_enabled: Option<bool> },
    WebSetup { app_dir: Seq<char>, fresh_password: bool },
    RegisterScriptingTask { app_dir: Seq<char>, start_now: bool },
    LaunchTray { exe: Seq<char> },
    EnsureAppRuntime { arch: Seq<char> },
    KillPortListeners { ports: Seq<u16> },
}

impl View for WinAction {
    type V = WinView;

    open spec fn view(&self) -> WinView {
        match *self {
            WinAction::Run(a) => WinView::Run(text::contents(a@)),
            WinAction::RunLenient(a) => WinView::RunLenient(text::contents(a@)),
            WinAction::Refuse(t) => WinView::Refuse(t@),
            WinAction::Note(l, t) => WinView::Note(l, t@),
            WinAction::DeployFiles { dest } => WinView::DeployFiles { dest: dest@ },
            WinAction::RemoveFiles { dir } => WinView::RemoveFiles { dir: dir@ },
            WinAction::DeleteFiles { paths } => WinView::DeleteFiles {
                paths: text::contents(paths@),
            },
            WinAction::PathAdd { machine, dir } => WinView::PathAdd { machine, dir: dir@ },
            WinAction::PathRemove { machine, dir } => WinView::PathRemove { machine, dir: dir@ },
            WinAction::ArpRegister { key, display_name, version, location } => WinView::ArpRegister {
                key: key@,
                display_name: display_name@,
                version: version@,
                location: location@,
            },
            WinAction::ArpRemove { key } => WinView::ArpRemove { key: key@ },
            WinAction::Shortcut { link, target } => WinView::Shortcut {
                link: link@,
                target: target@,
            },
            WinAction::MakeNetworkPrivate { network } => WinView::MakeNetworkPrivate {
                network: network@,
            },
            WinAction::StopHostRuntime { app_dir } => WinView::StopHostRuntime {
                app_dir: app_dir@,
            },
            WinAction::RestoreTasks { web_enabled, scripting_enabled } => WinView::RestoreTasks {
                web_enabled,
                scripting_enabled,
            },
            WinAction::WebSetup { app_dir, fresh_password } => WinView::WebSetup {
                app_dir: app_dir@,
                fresh_password,
            },
            WinAction::RegisterScriptingTask { app_dir, start_now } =>
                WinView::RegisterScriptingTask { app_dir: app_dir@, start_now },
            WinAction::LaunchTray { exe } => WinView::LaunchTray { exe: exe@ },
            WinAction::EnsureAppRuntime { arch } => WinView::EnsureAppRuntime { arch: arch@ },
            WinAction::KillPortListeners { ports } => WinView::KillPortListeners { ports: ports@ },
        }
    }
}

pub open spec fn action_views(v: Seq<WinAction>) -> Seq<WinView> {
    v.map_values(|a: WinAction| a@)
}

/// A part of a run with its heading.
pub struct WinPhase {
    pub title: String,
    pub steps: Vec<WinAction>,
}

/// A part of a run with its heading.
#[verifier::ext_equal]
pub struct WinPhaseView {
    pub title: Seq<char>,
    pub steps: Seq<WinView>,
}

impl View for WinPhase {
    type V = WinPhaseView;

    open spec fn view(&self) -> WinPhaseView {
        WinPhaseView { title: self.title@, steps: action_views(self.steps@) }
    }
}

/// A plan: the parts of a run, in order.
pub struct WinPlan {
    pub phases: Vec<WinPhase>,
}

impl View for WinPlan {
    type V = Seq<WinPhaseView>;

    open spec fn view(&self) -> Seq<WinPhaseView> {
        self.phases@.map_values(|p: WinPhase| p@)
    }
}

/// A plan and one more phase; one without steps is left out.
pub open spec fn and_phase(
    p: Seq<WinPhaseView>,
    title: Seq<char>,
    steps: Seq<WinView>,
) -> Seq<WinPhaseView> {
    if steps.len() == 0 {
        p
    } else {
        p.push(WinPhaseView { title, steps })
    }
}

/// A plan and one more phase when it applies.
pub open spec fn and_phase_if(
    p: Seq<WinPhaseView>,
    c: bool,
    title: Seq<char>,
    steps: Seq<WinView>,
) -> Seq<WinPhaseView> {
    if c {
        and_phase(p, title, steps)
    } else {
        p
    }
}

/// Steps and one more when it applies.
pub open spec fn and_if(s: Seq<WinView>, c: bool, x: WinView) -> Seq<WinView> {
    if c {
        s.push(x)
    } else {
        s
    }
}

/// One step.
pub open spec fn one(x: WinView) -> Seq<WinView> {
    Seq::empty().push(x)
}

/// All steps of the first `n` phases, in order.
pub open spec fn steps_of(plan: Seq<WinPhaseView>, n: int) -> Seq<WinView>
    decreases n,
{
    if n <= 0 {
        Seq::empty()
    } else {
        steps_of(plan, n - 1) + plan[n - 1].steps
    }
}

/// An argument as it is shown: one with a blank in quotes.
pub open spec fn shown_arg(a: Seq<char>) -> Seq<char> {
    if a.contains(' ') {
        "\""@ + a + "\""@
    } else {
        a
    }
}

/// A command line as it is shown.
pub open spec fn shown_line(argv: Seq<Seq<char>>) -> Seq<char> {
    text::joined(argv.map_values(|a: Seq<char>| shown_arg(a)), " "@)
}

/// The command lines among steps, in order.
pub open spec fn commands_of(s: Seq<WinView>) -> Seq<Seq<char>>
    decreases s.len(),
{
    if s.len() == 0 {
        Seq::empty()
    } else {
        let rest = commands_of(s.drop_last());
        match s.last() {
            WinView::Run(a) => rest.push(shown_line(a)),
            WinView::RunLenient(a) => rest.push(shown_line(a)),
            _ => rest,
        }
    }
}

fn has_blank(a: &str) -> (r: bool)
    ensures
        r == a@.contains(' '),
{
    let v: Vec<char> = text::chars_of(a);
    let mut i: usize = 0;
    while i < v.len()
        invariant
            i <= v@.len(),
            v@ == a@,
            forall|k: int| 0 <= k < i ==> a@[k] != ' ',
        decreases v@.len() - i,
    {
        if v[i] == ' ' {
            assert(a@[i as int] == ' ');
            return true;
        }
        i = i + 1;
    }
    false
}

/// Shows a command line; running it goes by the arguments, not by this.
pub fn join_argv(argv: &Vec<String>) -> (s: String)
    ensures
        s@ == shown_line(text::contents(argv@)),
{
    let ghost all = text::contents(argv@);
    let ghost f = |a: Seq<char>| shown_arg(a);
    let mut out: Vec<String> = text::no_texts();
    let mut i: usize = 0;
    assert(text::contents(out@) =~= all.take(0).map_values(f));
    while i < argv.len()
        invariant
            i <= argv@.len(),
            all == text::contents(argv@),
            f == (|a: Seq<char>| shown_arg(a)),
            text::contents(out@) == all.take(i as int).map_values(f),
        decreases argv@.len() - i,
    {
        if has_blank(argv[i].as_str()) {
            let quoted: String = "\"".to_owned().concat(argv[i].as_str()).concat("\"");
            out = text::with_text(out, quoted.as_str());
        } else {
            out = text::with_text(out, argv[i].as_str());
        }
        i = i + 1;
        assert(text::contents(out@) =~= all.take(i as int).map_values(f));
    }
    assert(all.take(i as int) =~= all);
    text::join(&out, " ")
}

pub open spec fn refs_view(v: Seq<&WinAction>) -> Seq<WinView> {
    v.map_values(|a: &WinAction| a@)
}

impl WinPlan {
    pub fn empty() -> (p: WinPlan)
        ensures
            p@ == Seq::<WinPhaseView>::empty(),
    {
        let p: WinPlan = WinPlan { phases: Vec::new() };
        assert(p@ =~= Seq::<WinPhaseView>::empty());
        p
    }

    fn push(&mut self, title: &str, steps: Vec<WinAction>)
        ensures
            final(self)@ == and_phase(old(self)@, title@, action_views(steps@)),
    {
        let ghost before = self@;
        assert(action_views(steps@).len() == steps@.len());
        if steps.len() == 0 {
            return;
        }
        let phase: WinPhase = WinPhase { title: title.to_owned(), steps };
        self.phases.push(phase);
        assert(self@ =~= before.push(phase@));
    }

    /// Every step of the run, in order.
    pub fn steps(&self) -> (out: Vec<&WinAction>)
        ensures
            refs_view(out@) == steps_of(self@, self@.len() as int),
    {
        let mut out: Vec<&WinAction> = Vec::new();
        let mut i: usize = 0;
        let ghost plan = self@;
        assert(refs_view(out@) =~= steps_of(plan, 0));
        while i < self.phases.len()
            invariant
                i <= self.phases@.len(),
                plan == self@,
                refs_view(out@) == steps_of(plan, i as int),
            decreases self.phases@.len() - i,
        {
            let phase: &WinPhase = &self.phases[i];
            let ghost before = refs_view(out@);
            let ghost here = action_views(phase.steps@);
            assert(plan[i as int] == phase@);
            let mut k: usize = 0;
            assert(before + here.take(0) =~= before);
            while k < phase.steps.len()
                invariant
                    k <= phase.steps@.len(),
                    here == action_views(phase.steps@),
                    refs_view(out@) == before + here.take(k as int),
                decreases phase.steps@.len() - k,
            {
                let ghost so_far = out@;
                let s: &WinAction = &phase.steps[k];
                out.push(s);
                k = k + 1;
                assert(refs_view(out@) =~= refs_view(so_far).push(s@));
                assert(refs_view(out@) =~= before + here.take(k as int));
            }
            assert(here.take(k as int) =~= here);
            i = i + 1;
        }
        assert(plan.len() == self.phases@.len());
        out
    }

    /// Every command line of the run as it is shown, in order.
    pub fn commands(&self) -> (out: Vec<String>)
        ensures
            text::contents(out@) == commands_of(steps_of(self@, self@.len() as int)),
    {
        let steps: Vec<&WinAction> = self.steps();
        let ghost all = refs_view(steps@);
        let mut out: Vec<String> = text::no_texts();
        let mut i: usize = 0;
        assert(all.take(0) =~= Seq::<WinView>::empty());
        while i < steps.len()
            invariant
                i <= steps@.len(),
                all == refs_view(steps@),
                text::contents(out@) == commands_of(all.take(i as int)),
            decreases steps@.len() - i,
        {
            let s: &WinAction = steps[i];
            proof {
                assert(all[i as int] == s@);
                assert(all.take(i + 1).drop_last() =~= all.take(i as int));
                assert(all.take(i + 1).last() == s@);
            }
            match s {
                WinAction::Run(argv) => {
                    out = text::with_text(out, join_argv(argv).as_str());
                },
                WinAction::RunLenient(argv) => {
                    out = text::with_text(out, join_argv(argv).as_str());
                },
                _ => {},
            }
            i = i + 1;
        }
        assert(all.take(i as int) =~= all);
        out
    }
}

/// Arguments under construction.
pub struct Argv {
    pub words: Vec<String>,
}

/// No arguments yet.
pub open spec fn argv() -> Seq<Seq<char>> {
    Seq::empty()
}

impl Argv {
    pub fn new() -> (a: Argv)
        ensures
            text::contents(a.words@) == argv(),
    {
        Argv { words: text::no_texts() }
    }

    /// One more argument.
    pub fn and(self, s: &str) -> (a: Argv)
        ensures
            text::contents(a.words@) == text::contents(self.words@).push(s@),
    {
        Argv { words: text::with_text(self.words, s) }
    }

    pub fn run(self) -> (a: WinAction)
        ensures
            a@ == WinView::Run(text::contents(self.words@)),
    {
        WinAction::Run(self.words)
    }

    pub fn run_lenient(self) -> (a: WinAction)
        ensures
            a@ == WinView::RunLenient(text::contents(self.words@)),
    {
        WinAction::RunLenient(self.words)
    }
}

fn note(level: Level, t: &str) -> (a: WinAction)
    ensures
        a@ == WinView::Note(level, t@),
{
    WinAction::Note(level, t.to_owned())
}

fn no_actions() -> (v: Vec<WinAction>)
    ensures
        action_views(v@) == Seq::<WinView>::empty(),
{
    let v: Vec<WinAction> = Vec::new();
    assert(action_views(v@) =~= Seq::<WinView>::empty());
    v
}

fn put(v: &mut Vec<WinAction>, a: WinAction)
    ensures
        action_views(final(v)@) == action_views(old(v)@).push(a@),
{
    let ghost before = v@;
    v.push(a);
    assert(action_views(v@) =~= action_views(before).push(a@));
}

fn only(a: WinAction) -> (v: Vec<WinAction>)
    ensures
        action_views(v@) == one(a@),
{
    let mut v: Vec<WinAction> = no_actions();
    put(&mut v, a);
    v
}

/// The directory of an install: the chosen one or the default, without the slashes at its end.
pub open spec fn dir_of(choices: WinChoices, artifact: Artifact) -> Seq<char> {
    text::trim_back(
        match choices.dir {
            Some(d) => d@,
            None => match artifact {
                Artifact::Host => DEFAULT_HOST_DIR@,
                Artifact::Client => DEFAULT_CLIENT_DIR@,
            },
        },
        Sep::Is('\\'),
    )
}

fn app_dir(choices: &WinChoices, artifact: Artifact) -> (s: String)
    ensures
        s@ == dir_of(*choices, artifact),
{
    let d: &str = match &choices.dir {
        Some(d) => d.as_str(),
        None => match artifact {
            Artifact::Host => DEFAULT_HOST_DIR,
            Artifact::Client => DEFAULT_CLIENT_DIR,
        },
    };
    text::trim_end(d, Sep::Is('\\')).to_owned()
}

pub open spec fn on_off(on: bool) -> Seq<char> {
    if on {
        "on"@
    } else {
        "off"@
    }
}

fn switch_word(on: bool) -> (s: &'static str)
    ensures
        s@ == on_off(on),
{
    if on {
        "on"
    } else {
        "off"
    }
}

/// What a task goes back to: unset when it did not exist.
pub open spec fn enabled_of(state: TaskState) -> Option<bool> {
    match state {
        TaskState::Absent => None,
        TaskState::Enabled => Some(true),
        TaskState::Disabled => Some(false),
    }
}

fn enabled(state: TaskState) -> (r: Option<bool>)
    ensures
        r == enabled_of(state),
{
    match state {
        TaskState::Absent => None,
        TaskState::Enabled => Some(true),
        TaskState::Disabled => Some(false),
    }
}

/// The registry steps. A tray that is switched off leaves no stale autostart behind; its path is
/// quoted, or Windows would try each prefix of it.
pub open spec fn registry_of(facts: WinFacts, choices: WinChoices, app: Seq<char>) -> Seq<WinView> {
    let none = Seq::<WinView>::empty();
    let tray = if choices.tray_autostart {
        none.push(
            WinView::Run(
                argv().push("reg"@).push("add"@).push(RUN_KEY@).push("/v"@).push(
                    "PunktfunkTray"@,
                ).push("/t"@).push("REG_SZ"@).push("/d"@).push(
                    "\""@ + app + "\\punktfunk-tray.exe\""@,
                ).push("/f"@),
            ),
        )
    } else {
        and_if(
            none,
            facts.tray_autostart,
            WinView::Run(
                argv().push("reg"@).push("delete"@).push(RUN_KEY@).push("/v"@).push(
                    "PunktfunkTray"@,
                ).push("/f"@),
            ),
        )
    };
    let toast = tray.push(
        WinView::Run(
            argv().push("reg"@).push("add"@).push(AUMID_KEY@).push("/v"@).push(
                "DisplayName"@,
            ).push("/t"@).push("REG_SZ"@).push("/d"@).push("Punktfunk"@).push("/f"@),
        ),
    ).push(
        WinView::Run(
            argv().push("reg"@).push("add"@).push(AUMID_KEY@).push("/v"@).push("IconUri"@).push(
                "/t"@,
            ).push("REG_SZ"@).push("/d"@).push(app + "\\punktfunk.ico"@).push("/f"@),
        ),
    );
    let layer = if choices.install_hdr_layer {
        toast.push(
            WinView::Run(
                argv().push("reg"@).push("add"@).push(LAYERS_KEY@).push("/v"@).push(
                    app + "\\vklayer\\pf_vkhdr_layer.json"@,
                ).push("/t"@).push("REG_DWORD"@).push("/d"@).push("0"@).push("/f"@),
            ),
        )
    } else {
        and_if(
            toast,
            facts.vulkan_layer_registered,
            WinView::RunLenient(
                argv().push("reg"@).push("delete"@).push(LAYERS_KEY@).push("/v"@).push(
                    app + "\\vklayer\\pf_vkhdr_layer.json"@,
                ).push("/f"@),
            ),
        )
    };
    layer.push(WinView::PathAdd { machine: true, dir: app })
}

fn registry_steps(facts: &WinFacts, choices: &WinChoices, app: &str) -> (steps: Vec<WinAction>)
    ensures
        action_views(steps@) == registry_of(*facts, *choices, app@),
{
    let mut steps: Vec<WinAction> = no_actions();
    if choices.tray_autostart {
        let exe: String = "\"".to_owned().concat(app).concat("\\punktfunk-tray.exe\"");
        put(
            &mut steps,
            Argv::new().and("reg").and("add").and(RUN_KEY).and("/v").and("PunktfunkTray").and(
                "/t",
            ).and("REG_SZ").and("/d").and(exe.as_str()).and("/f").run(),
        );
    } else if facts.tray_autostart {
        put(
            &mut steps,
            Argv::new().and("reg").and("delete").and(RUN_KEY).and("/v").and("PunktfunkTray").and(
                "/f",
            ).run(),
        );
    }
    put(
        &mut steps,
        Argv::new().and("reg").and("add").and(AUMID_KEY).and("/v").and("DisplayName").and(
            "/t",
        ).and("REG_SZ").and("/d").and("Punktfunk").and("/f").run(),
    );
    let icon: String = app.to_owned().concat("\\punktfunk.ico");
    put(
        &mut steps,
        Argv::new().and("reg").and("add").and(AUMID_KEY).and("/v").and("IconUri").and("/t").and(
            "REG_SZ",
        ).and("/d").and(icon.as_str()).and("/f").run(),
    );
    let layer: String = app.to_owned().concat("\\vklayer\\pf_vkhdr_layer.json");
    if choices.install_hdr_layer {
        put(
            &mut steps,
            Argv::new().and("reg").and("add").and(LAYERS_KEY).and("/v").and(layer.as_str()).and(
                "/t",
            ).and("REG_DWORD").and("/d").and("0").and("/f").run(),
        );
    } else if facts.vulkan_layer_registered {
        put(
            &mut steps,
            Argv::new().and("reg").and("delete").and(LAYERS_KEY).and("/v").and(
                layer.as_str(),
            ).and("/f").run_lenient(),
        );
    }
    put(&mut steps, WinAction::PathAdd { machine: true, dir: app.to_owned() });
    steps
}

/// The steps for a public network. Skipping never touches a profile: it warns, unless the rules
/// are opened anyway.
pub open spec fn network_of(facts: WinFacts, choices: WinChoices) -> Seq<WinView> {
    match choices.network {
        NetworkAnswer::MakePrivate(name) => one(
            WinView::MakeNetworkPrivate { network: name@ },
        ).push(
            WinView::Note(
                Level::Good,
                "network '"@ + name@
                    + "' becomes Private — the standard firewall rules apply there"@,
            ),
        ),
        NetworkAnswer::OpenPublicRules => one(
            WinView::Note(
                Level::Good,
                "keeping the network Public and opening the firewall for it (--allow-public-network=on)"@,
            ),
        ),
        NetworkAnswer::Skip => if facts.public().len() == 0 || choices.allow_public_fw == Some(
            true,
        ) {
            Seq::empty()
        } else {
            one(
                WinView::Note(
                    Level::Warn,
                    "network '"@ + text::joined(facts.public(), "', '"@)
                        + "' is set to Public, and the firewall rules below don't apply there — the host will be unreachable until the network is Private or the public rules are added ("@
                        + DOCS@ + "/troubleshooting#windows-firewall)"@,
                ),
            )
        },
    }
}

fn network_steps(facts: &WinFacts, choices: &WinChoices) -> (steps: Vec<WinAction>)
    ensures
        action_views(steps@) == network_of(*facts, *choices),
{
    match &choices.network {
        NetworkAnswer::MakePrivate(name) => {
            let mut steps: Vec<WinAction> = only(
                WinAction::MakeNetworkPrivate { network: name.clone() },
            );
            let t: String = "network '".to_owned().concat(name.as_str()).concat(
                "' becomes Private — the standard firewall rules apply there",
            );
            put(&mut steps, note(Level::Good, t.as_str()));
            steps
        },
        NetworkAnswer::OpenPublicRules => only(
            note(
                Level::Good,
                "keeping the network Public and opening the firewall for it (--allow-public-network=on)",
            ),
        ),
        NetworkAnswer::Skip => {
            let public: Vec<String> = facts.public_networks();
            assert(text::contents(public@).len() == public@.len());
            let open: bool = match choices.allow_public_fw {
                Some(on) => on,
                None => false,
            };
            if public.len() == 0 || open {
                return no_actions();
            }
            let t: String = "network '".to_owned().concat(
                text::join(&public, "', '").as_str(),
            ).concat(
                "' is set to Public, and the firewall rules below don't apply there — the host will be unreachable until the network is Private or the public rules are added (",
            ).concat(DOCS).concat("/troubleshooting#windows-firewall)");
            only(note(Level::Warn, t.as_str()))
        },
    }
}

/// The moved port in decimal.
pub open spec fn moved_port() -> Seq<char> {
    text::decimal(MGMT_PORT_MOVED as nat)
}

/// The steps next to another streaming host: nothing runs, the service step does the move.
pub open spec fn coexist_of(facts: WinFacts, choices: WinChoices) -> Seq<WinView> {
    if !facts.coexists() {
        one(
            WinView::Note(
                Level::Good,
                if facts.mgmt_bind_set {
                    "management port already moved in host.env — leaving the operator's value alone"@
                } else {
                    "No conflicting game-streaming host detected."@
                },
            ),
        )
    } else {
        one(
            WinView::Note(
                Level::Warn,
                facts.competing_hosts@[0]@
                    + " is active on this box — both want TCP 47990 (its web UI, punktfunk's management API)"@,
            ),
        ).push(
            WinView::Note(
                Level::Good,
                "PUNKTFUNK_MGMT_BIND=0.0.0.0:"@ + moved_port()
                    + " — the service step writes it to host.env and opens the firewall for it"@,
            ),
        ).push(
            WinView::Note(
                Level::Good,
                "Clients learn the port from discovery; the console and plugins read it from mgmt-endpoint. Details: "@
                    + DOCS@ + "/switching-from-sunshine"@,
            ),
        ).push(
            if choices.gamestream == Some(true) {
                WinView::Note(
                    Level::Warn,
                    "with another GameStream host running, only one can bind the Moonlight ports — stop the other first or skip this"@,
                )
            } else {
                WinView::Note(
                    Level::Good,
                    "Moonlight compatibility stays off — the other host owns those ports while it runs"@,
                )
            },
        )
    }
}

fn coexist_steps(facts: &WinFacts, choices: &WinChoices) -> (steps: Vec<WinAction>)
    ensures
        action_views(steps@) == coexist_of(*facts, *choices),
{
    if !facts.needs_coexistence() {
        if facts.mgmt_bind_set {
            return only(
                note(
                    Level::Good,
                    "management port already moved in host.env — leaving the operator's value alone",
                ),
            );
        }
        return only(note(Level::Good, "No conflicting game-streaming host detected."));
    }
    let port: String = text::decimal_u64(MGMT_PORT_MOVED as u64);
    let who: String = facts.competing_hosts[0].clone().concat(
        " is active on this box — both want TCP 47990 (its web UI, punktfunk's management API)",
    );
    let mut steps: Vec<WinAction> = only(note(Level::Warn, who.as_str()));
    let moved: String = "PUNKTFUNK_MGMT_BIND=0.0.0.0:".to_owned().concat(port.as_str()).concat(
        " — the service step writes it to host.env and opens the firewall for it",
    );
    put(&mut steps, note(Level::Good, moved.as_str()));
    let learn: String =
        "Clients learn the port from discovery; the console and plugins read it from mgmt-endpoint. Details: ".to_owned().concat(
        DOCS,
    ).concat("/switching-from-sunshine");
    put(&mut steps, note(Level::Good, learn.as_str()));
    let gamestream: bool = match choices.gamestream {
        Some(on) => on,
        None => false,
    };
    if gamestream {
        put(
            &mut steps,
            note(
                Level::Warn,
                "with another GameStream host running, only one can bind the Moonlight ports — stop the other first or skip this",
            ),
        );
    } else {
        put(
            &mut steps,
            note(
                Level::Good,
                "Moonlight compatibility stays off — the other host owns those ports while it runs",
            ),
        );
    }
    steps
}

/// The driver steps. Lenient: a driver that fails must not strand the box between the stopped
/// host and the service.
pub open spec fn drivers_of(
    facts: WinFacts,
    choices: WinChoices,
    host_exe: Seq<char>,
) -> Seq<WinView> {
    let a = and_if(
        Seq::empty(),
        choices.install_driver,
        WinView::RunLenient(
            argv().push(host_exe).push("driver"@).push("install"@).push("--dir"@).push(
                "<staging>\\pfvdisplay"@,
            ),
        ),
    );
    let b = and_if(
        a,
        choices.install_gamepad,
        WinView::RunLenient(
            argv().push(host_exe).push("driver"@).push("install"@).push("--gamepad"@).push(
                "--dir"@,
            ).push("<staging>\\gamepad"@),
        ),
    );
    and_if(
        b,
        facts.installed is Some && !choices.install_driver,
        WinView::Note(
            Level::Warn,
            "the virtual-display driver is NOT being updated with this host — the two must match, or every session ends with 'driver outdated'"@,
        ),
    )
}

fn driver_steps(facts: &WinFacts, choices: &WinChoices, host_exe: &str) -> (steps: Vec<WinAction>)
    ensures
        action_views(steps@) == drivers_of(*facts, *choices, host_exe@),
{
    let mut steps: Vec<WinAction> = no_actions();
    if choices.install_driver {
        put(
            &mut steps,
            Argv::new().and(host_exe).and("driver").and("install").and("--dir").and(
                "<staging>\\pfvdisplay",
            ).run_lenient(),
        );
    }
    if choices.install_gamepad {
        put(
            &mut steps,
            Argv::new().and(host_exe).and("driver").and("install").and("--gamepad").and(
                "--dir",
            ).and("<staging>\\gamepad").run_lenient(),
        );
    }
    if facts.installed.is_some() && !choices.install_driver {
        put(
            &mut steps,
            note(
                Level::Warn,
                "the virtual-display driver is NOT being updated with this host — the two must match, or every session ends with 'driver outdated'",
            ),
        );
    }
    steps
}

/// The arguments of the service install. What was not chosen is left out, and the box keeps it.
pub open spec fn service_argv(
    facts: WinFacts,
    choices: WinChoices,
    host_exe: Seq<char>,
) -> Seq<Seq<char>> {
    let a = argv().push(host_exe).push("service"@).push("install"@);
    let b = match choices.gamestream {
        Some(on) => a.push("--gamestream="@ + on_off(on)),
        None => a,
    };
    let c = match choices.allow_public_fw {
        Some(on) => b.push("--allow-public-network="@ + on_off(on)),
        None => b,
    };
    let d = if facts.coexists() {
        c.push("--mgmt-bind=0.0.0.0:"@ + moved_port())
    } else {
        c
    };
    match choices.web_bind {
        Some(addr) => d.push("--web-bind="@ + addr@),
        None => d,
    }
}

pub open spec fn service_of(
    facts: WinFacts,
    choices: WinChoices,
    host_exe: Seq<char>,
) -> Seq<WinView> {
    and_if(
        one(WinView::Run(service_argv(facts, choices, host_exe))),
        choices.start_service,
        WinView::Run(argv().push(host_exe).push("service"@).push("start"@)),
    )
}

fn service_steps(facts: &WinFacts, choices: &WinChoices, host_exe: &str) -> (steps: Vec<WinAction>)
    ensures
        action_views(steps@) == service_of(*facts, *choices, host_exe@),
{
    let mut service: Argv = Argv::new().and(host_exe).and("service").and("install");
    match choices.gamestream {
        Some(on) => {
            service = service.and("--gamestream=".to_owned().concat(switch_word(on)).as_str());
        },
        None => {},
    }
    match choices.allow_public_fw {
        Some(on) => {
            service =
            service.and("--allow-public-network=".to_owned().concat(switch_word(on)).as_str());
        },
        None => {},
    }
    if facts.needs_coexistence() {
        let bind: String = "--mgmt-bind=0.0.0.0:".to_owned().concat(
            text::decimal_u64(MGMT_PORT_MOVED as u64).as_str(),
        );
        service = service.and(bind.as_str());
    }
    match &choices.web_bind {
        Some(addr) => {
            service = service.and("--web-bind=".to_owned().concat(addr.as_str()).as_str());
        },
        None => {},
    }
    let mut steps: Vec<WinAction> = only(service.run());
    if choices.start_service {
        put(&mut steps, Argv::new().and(host_exe).and("service").and("start").run());
    }
    steps
}

/// The files an earlier uninstaller leaves.
pub open spec fn retire_of(app: Seq<char>) -> Seq<WinView> {
    one(
        WinView::DeleteFiles {
            paths: argv().push(app + "\\unins000.dat"@).push(app + "\\unins000.msg"@),
        },
    ).push(
        WinView::Note(
            Level::Good,
            "the Add/Remove Programs entry keeps its key — winget and the updater keep tracking this install"@,
        ),
    )
}

/// The refusal of a Windows that is too old.
pub open spec fn refusal(cat: Catalogue, facts: WinFacts) -> Seq<char> {
    "The Punktfunk host needs "@ + cat.floor_of("windows"@) + " — this PC reports build "@
        + text::decimal(facts.os_build as nat)
        + ", where the virtual display can't start. Nothing was installed."@
}

/// The host's install.
pub open spec fn host_install_of(
    cat: Catalogue,
    facts: WinFacts,
    choices: WinChoices,
    host_key: Seq<char>,
) -> Seq<WinPhaseView> {
    let none = Seq::<WinPhaseView>::empty();
    if facts.os_build < MIN_HOST_BUILD {
        and_phase(none, "Checking Windows"@, one(WinView::Refuse(refusal(cat, facts))))
    } else {
        let app = dir_of(choices, Artifact::Host);
        let exe = app + "\\punktfunk-host.exe"@;
        let upgrade = facts.installed is Some;
        let p1 = and_phase_if(
            none,
            upgrade,
            "Stopping the running host for the upgrade"@,
            one(WinView::StopHostRuntime { app_dir: app }),
        );
        let p2 = and_phase(p1, "Files → "@ + app, one(WinView::DeployFiles { dest: app }));
        let p3 = and_phase_if(
            p2,
            upgrade && facts.inno_uninstaller,
            "Retiring the Inno Setup uninstaller"@,
            retire_of(app),
        );
        let p4 = and_phase(
            p3,
            "Register the uninstaller"@,
            one(
                WinView::ArpRegister {
                    key: host_key,
                    display_name: "Punktfunk Host"@,
                    version: "<version>"@,
                    location: app,
                },
            ),
        );
        let p5 = and_phase(p4, "Registry"@, registry_of(facts, choices, app));
        let p6 = and_phase(p5, "Network"@, network_of(facts, choices));
        let p7 = and_phase(
            p6,
            "Checking for Sunshine / Apollo / Vibeshine"@,
            coexist_of(facts, choices),
        );
        let p8 = and_phase(
            p7,
            "Drivers (a hiccup warns and never aborts)"@,
            drivers_of(facts, choices, exe),
        );
        let p9 = and_phase(p8, "Service"@, service_of(facts, choices, exe));
        let p10 = and_phase(
            p9,
            "Web console"@,
            one(
                WinView::WebSetup { app_dir: app, fresh_password: !facts.web_password_present },
            ),
        );
        let p11 = and_phase(
            p10,
            "Plugin runner"@,
            one(
                WinView::RegisterScriptingTask {
                    app_dir: app,
                    start_now: facts.scripting_task == TaskState::Absent,
                },
            ),
        );
        let p12 = and_phase_if(
            p11,
            upgrade,
            "Restoring what the stop disabled"@,
            one(
                WinView::RestoreTasks {
                    web_enabled: enabled_of(facts.web_task),
                    scripting_enabled: enabled_of(facts.scripting_task),
                },
            ),
        );
        let p13 = and_phase_if(
            p12,
            choices.tray_autostart,
            "Tray"@,
            one(WinView::LaunchTray { exe: app + "\\punktfunk-tray.exe"@ }),
        );
        and_phase_if(
            p13,
            choices.install_driver,
            "Checking the virtual display driver"@,
            one(WinView::Run(argv().push(exe).push("driver"@).push("check"@))),
        )
    }
}

fn host_install(cat: &Catalogue, facts: &WinFacts, choices: &WinChoices, host_key: &str) -> (p:
    WinPlan)
    ensures
        p@ == host_install_of(*cat, *facts, *choices, host_key@),
{
    let mut plan: WinPlan = WinPlan::empty();
    if facts.os_build < MIN_HOST_BUILD {
        let t: String = "The Punktfunk host needs ".to_owned().concat(
            platform::floor(cat, "windows").as_str(),
        ).concat(" — this PC reports build ").concat(
            text::decimal_u64(facts.os_build as u64).as_str(),
        ).concat(", where the virtual display can't start. Nothing was installed.");
        plan.push("Checking Windows", only(WinAction::Refuse(t)));
        return plan;
    }
    let app: String = app_dir(choices, Artifact::Host);
    let host_exe: String = app.clone().concat("\\punktfunk-host.exe");
    let upgrade: bool = facts.installed.is_some();
    if upgrade {
        plan.push(
            "Stopping the running host for the upgrade",
            only(WinAction::StopHostRuntime { app_dir: app.clone() }),
        );
    }
    plan.push(
        "Files → ".to_owned().concat(app.as_str()).as_str(),
        only(WinAction::DeployFiles { dest: app.clone() }),
    );
    if upgrade && facts.inno_uninstaller {
        let paths: Argv = Argv::new().and(app.clone().concat("\\unins000.dat").as_str()).and(
            app.clone().concat("\\unins000.msg").as_str(),
        );
        let mut steps: Vec<WinAction> = only(WinAction::DeleteFiles { paths: paths.words });
        put(
            &mut steps,
            note(
                Level::Good,
                "the Add/Remove Programs entry keeps its key — winget and the updater keep tracking this install",
            ),
        );
        plan.push("Retiring the Inno Setup uninstaller", steps);
    }
    plan.push(
        "Register the uninstaller",
        only(
            WinAction::ArpRegister {
                key: host_key.to_owned(),
                display_name: "Punktfunk Host".to_owned(),
                version: "<version>".to_owned(),
                location: app.clone(),
            },
        ),
    );
    plan.push("Registry", registry_steps(facts, choices, app.as_str()));
    plan.push("Network", network_steps(facts, choices));
    plan.push("Checking for Sunshine / Apollo / Vibeshine", coexist_steps(facts, choices));
    plan.push(
        "Drivers (a hiccup warns and never aborts)",
        driver_steps(facts, choices, host_exe.as_str()),
    );
    plan.push("Service", service_steps(facts, choices, host_exe.as_str()));
    plan.push(
        "Web console",
        only(
            WinAction::WebSetup {
                app_dir: app.clone(),
                fresh_password: !facts.web_password_present,
            },
        ),
    );
    plan.push(
        "Plugin runner",
        only(
            WinAction::RegisterScriptingTask {
                app_dir: app.clone(),
                start_now: facts.scripting_task == TaskState::Absent,
            },
        ),
    );
    if upgrade {
        plan.push(
            "Restoring what the stop disabled",
            only(
                WinAction::RestoreTasks {
                    web_enabled: enabled(facts.web_task),
                    scripting_enabled: enabled(facts.scripting_task),
                },
            ),
        );
    }
    if choices.tray_autostart {
        plan.push(
            "Tray",
            only(WinAction::LaunchTray { exe: app.clone().concat("\\punktfunk-tray.exe") }),
        );
    }
    if choices.install_driver {
        plan.push(
            "Checking the virtual display driver",
            only(Argv::new().and(host_exe.as_str()).and("driver").and("check").run()),
        );
    }
    plan
}

/// The directory an uninstall goes by: where the install says it is, else the chosen or default
/// one.
pub open spec fn uninstall_dir(facts: WinFacts, choices: WinChoices) -> Seq<char> {
    match facts.installed {
        Some(i) => match i.location {
            Some(l) => text::trim_back(l@, Sep::Is('\\')),
            None => dir_of(choices, Artifact::Host),
        },
        None => dir_of(choices, Artifact::Host),
    }
}

/// Ending and deleting a task.
pub open spec fn and_task_gone(s: Seq<WinView>, task: Seq<char>) -> Seq<WinView> {
    s.push(
        WinView::RunLenient(
            argv().push("schtasks"@).push("/End"@).push("/TN"@).push(task),
        ),
    ).push(
        WinView::RunLenient(
            argv().push("schtasks"@).push("/Delete"@).push("/TN"@).push(task).push("/F"@),
        ),
    )
}

fn task_gone(v: &mut Vec<WinAction>, task: &str)
    ensures
        action_views(final(v)@) == and_task_gone(action_views(old(v)@), task@),
{
    put(v, Argv::new().and("schtasks").and("/End").and("/TN").and(task).run_lenient());
    put(v, Argv::new().and("schtasks").and("/Delete").and("/TN").and(task).and("/F").run_lenient());
}

/// Deleting a firewall rule.
pub open spec fn rule_gone_of(rule: Seq<char>) -> WinView {
    WinView::RunLenient(
        argv().push("netsh"@).push("advfirewall"@).push("firewall"@).push("delete"@).push(
            "rule"@,
        ).push(rule),
    )
}

fn rule_gone(rule: &str) -> (a: WinAction)
    ensures
        a@ == rule_gone_of(rule@),
{
    Argv::new().and("netsh").and("advfirewall").and("firewall").and("delete").and("rule").and(
        rule,
    ).run_lenient()
}

/// The first half of the host's uninstall. The service goes first: the host would start its tray
/// again. All drivers go, whichever this install laid down.
pub open spec fn uninstall_runtime(app: Seq<char>) -> Seq<WinView> {
    let exe = app + "\\punktfunk-host.exe"@;
    let stopped = one(
        WinView::RunLenient(argv().push(exe).push("service"@).push("uninstall"@)),
    ).push(
        WinView::RunLenient(argv().push(app + "\\punktfunk-tray.exe"@).push("--quit"@)),
    ).push(
        WinView::RunLenient(
            argv().push("taskkill"@).push("/F"@).push("/IM"@).push("punktfunk-tray.exe"@),
        ),
    );
    let drivers = stopped.push(
        WinView::RunLenient(argv().push(exe).push("driver"@).push("uninstall"@)),
    ).push(
        WinView::RunLenient(
            argv().push(exe).push("driver"@).push("uninstall"@).push("--gamepad"@),
        ),
    ).push(
        WinView::RunLenient(
            argv().push(exe).push("driver"@).push("uninstall"@).push("--audio"@),
        ),
    );
    and_task_gone(and_task_gone(drivers, "PunktfunkWeb"@), "PunktfunkScripting"@)
}

/// The host's uninstall, one lenient sweep in order; the files go last of all.
pub open spec fn uninstall_steps_of(app: Seq<char>, host_key: Seq<char>) -> Seq<WinView> {
    let swept = uninstall_runtime(app).push(
        WinView::KillPortListeners { ports: Seq::<u16>::empty().push(47992).push(3000) },
    ).push(rule_gone_of("name=Punktfunk web console (TCP 47992)"@)).push(
        rule_gone_of("name=Punktfunk plugin UIs (TCP 47993)"@),
    ).push(WinView::PathRemove { machine: true, dir: app }).push(
        WinView::ArpRemove { key: host_key },
    );
    swept.push(
        WinView::RunLenient(
            argv().push("reg"@).push("delete"@).push(RUN_KEY@).push("/v"@).push(
                "PunktfunkTray"@,
            ).push("/f"@),
        ),
    ).push(
        WinView::RunLenient(argv().push("reg"@).push("delete"@).push(AUMID_KEY@).push("/f"@)),
    ).push(
        WinView::RunLenient(
            argv().push("reg"@).push("delete"@).push(LAYERS_KEY@).push("/v"@).push(
                app + "\\vklayer\\pf_vkhdr_layer.json"@,
            ).push("/f"@),
        ),
    ).push(WinView::RemoveFiles { dir: app }).push(
        WinView::Note(
            Level::Good,
            "kept on purpose: %ProgramData%\\punktfunk (identity, passwords, update cache) and any VB-CABLE install"@,
        ),
    )
}

/// The host's uninstall.
pub open spec fn host_uninstall_of(
    facts: WinFacts,
    choices: WinChoices,
    host_key: Seq<char>,
) -> Seq<WinPhaseView> {
    and_phase(
        Seq::empty(),
        "Uninstalling the host ("@ + DOCS@ + "/uninstall)"@,
        uninstall_steps_of(uninstall_dir(facts, choices), host_key),
    )
}

fn uninstall_app(facts: &WinFacts, choices: &WinChoices) -> (s: String)
    ensures
        s@ == uninstall_dir(*facts, *choices),
{
    match &facts.installed {
        Some(i) => match &i.location {
            Some(l) => text::trim_end(l.as_str(), Sep::Is('\\')).to_owned(),
            None => app_dir(choices, Artifact::Host),
        },
        None => app_dir(choices, Artifact::Host),
    }
}

fn host_uninstall(facts: &WinFacts, choices: &WinChoices, host_key: &str) -> (p: WinPlan)
    ensures
        p@ == host_uninstall_of(*facts, *choices, host_key@),
{
    let app: String = uninstall_app(facts, choices);
    let exe: String = app.clone().concat("\\punktfunk-host.exe");
    let host_exe: &str = exe.as_str();
    let mut steps: Vec<WinAction> = only(
        Argv::new().and(host_exe).and("service").and("uninstall").run_lenient(),
    );
    let tray: String = app.clone().concat("\\punktfunk-tray.exe");
    put(&mut steps, Argv::new().and(tray.as_str()).and("--quit").run_lenient());
    put(
        &mut steps,
        Argv::new().and("taskkill").and("/F").and("/IM").and("punktfunk-tray.exe").run_lenient(),
    );
    put(&mut steps, Argv::new().and(host_exe).and("driver").and("uninstall").run_lenient());
    put(
        &mut steps,
        Argv::new().and(host_exe).and("driver").and("uninstall").and("--gamepad").run_lenient(),
    );
    put(
        &mut steps,
        Argv::new().and(host_exe).and("driver").and("uninstall").and("--audio").run_lenient(),
    );
    task_gone(&mut steps, "PunktfunkWeb");
    task_gone(&mut steps, "PunktfunkScripting");
    let mut ports: Vec<u16> = Vec::new();
    ports.push(47992);
    ports.push(3000);
    put(&mut steps, WinAction::KillPortListeners { ports });
    put(&mut steps, rule_gone("name=Punktfunk web console (TCP 47992)"));
    put(&mut steps, rule_gone("name=Punktfunk plugin UIs (TCP 47993)"));
    put(&mut steps, WinAction::PathRemove { machine: true, dir: app.clone() });
    put(&mut steps, WinAction::ArpRemove { key: host_key.to_owned() });
    put(
        &mut steps,
        Argv::new().and("reg").and("delete").and(RUN_KEY).and("/v").and("PunktfunkTray").and(
            "/f",
        ).run_lenient(),
    );
    put(
        &mut steps,
        Argv::new().and("reg").and("delete").and(AUMID_KEY).and("/f").run_lenient(),
    );
    let layer: String = app.clone().concat("\\vklayer\\pf_vkhdr_layer.json");
    put(
        &mut steps,
        Argv::new().and("reg").and("delete").and(LAYERS_KEY).and("/v").and(layer.as_str()).and(
            "/f",
        ).run_lenient(),
    );
    put(&mut steps, WinAction::RemoveFiles { dir: app.clone() });
    put(
        &mut steps,
        note(
            Level::Good,
            "kept on purpose: %ProgramData%\\punktfunk (identity, passwords, update cache) and any VB-CABLE install",
        ),
    );
    let mut plan: WinPlan = WinPlan::empty();
    plan.push("Uninstalling the host (".to_owned().concat(DOCS).concat("/uninstall)").as_str(), steps);
    plan
}

/// Stopping a program of the client's.
pub open spec fn kill_of(exe: Seq<char>) -> WinView {
    WinView::RunLenient(argv().push("taskkill"@).push("/F"@).push("/IM"@).push(exe))
}

fn kill(exe: &str) -> (a: WinAction)
    ensures
        a@ == kill_of(exe@),
{
    Argv::new().and("taskkill").and("/F").and("/IM").and(exe).run_lenient()
}

/// Stopping whatever may hold the client's files open.
pub open spec fn kills() -> Seq<WinView> {
    one(kill_of("punktfunk-client.exe"@)).push(kill_of("punktfunk-session.exe"@)).push(
        kill_of("punktfunk-console.exe"@),
    ).push(kill_of("punktfunk.exe"@))
}

fn kill_all() -> (v: Vec<WinAction>)
    ensures
        action_views(v@) == kills(),
{
    let mut v: Vec<WinAction> = only(kill("punktfunk-client.exe"));
    put(&mut v, kill("punktfunk-session.exe"));
    put(&mut v, kill("punktfunk-console.exe"));
    put(&mut v, kill("punktfunk.exe"));
    v
}

/// Writing a default value of the client's protocol.
pub open spec fn proto_of(key: Seq<char>, value: Seq<char>) -> WinView {
    WinView::Run(
        argv().push("reg"@).push("add"@).push(key).push("/ve"@).push("/t"@).push("REG_SZ"@).push(
            "/d"@,
        ).push(value).push("/f"@),
    )
}

fn proto(key: &str, value: &str) -> (a: WinAction)
    ensures
        a@ == proto_of(key@, value@),
{
    Argv::new().and("reg").and("add").and(key).and("/ve").and("/t").and("REG_SZ").and("/d").and(
        value,
    ).and("/f").run()
}

/// The client's registry.
pub open spec fn client_registry(app: Seq<char>) -> Seq<WinView> {
    let exe = app + "\\punktfunk-client.exe"@;
    one(proto_of(PROTO_KEY@, "URL:Punktfunk stream link"@)).push(
        WinView::Run(
            argv().push("reg"@).push("add"@).push(PROTO_KEY@).push("/v"@).push(
                "URL Protocol"@,
            ).push("/t"@).push("REG_SZ"@).push("/d"@).push(""@).push("/f"@),
        ),
    ).push(proto_of(PROTO_KEY@ + "\\DefaultIcon"@, exe + ",0"@)).push(
        proto_of(PROTO_KEY@ + "\\shell\\open\\command"@, "\""@ + exe + "\" \"%1\""@),
    ).push(WinView::PathAdd { machine: false, dir: app })
}

/// The client's links.
pub open spec fn client_links(choices: WinChoices, app: Seq<char>) -> Seq<WinView> {
    let exe = app + "\\punktfunk-client.exe"@;
    and_if(
        one(WinView::Shortcut { link: LINK_START@, target: exe }).push(
            WinView::Shortcut { link: LINK_CONSOLE@, target: app + "\\punktfunk-console.exe"@ },
        ),
        choices.desktop_icon,
        WinView::Shortcut { link: LINK_DESKTOP@, target: exe },
    )
}

/// The client's install.
pub open spec fn client_install_of(facts: WinFacts, choices: WinChoices) -> Seq<WinPhaseView> {
    let app = dir_of(choices, Artifact::Client);
    let p1 = and_phase(Seq::empty(), "Stopping running punktfunk apps"@, kills());
    let p2 = and_phase(p1, "Files → "@ + app, one(WinView::DeployFiles { dest: app }));
    let p3 = and_phase(p2, "Registry"@, client_registry(app));
    let p4 = and_phase(p3, "Shortcuts"@, client_links(choices, app));
    let p5 = and_phase(
        p4,
        "Windows App Runtime"@,
        one(WinView::EnsureAppRuntime { arch: facts.arch@ }),
    );
    and_phase(
        p5,
        "Register the uninstaller"@,
        one(
            WinView::ArpRegister {
                key: CLIENT_ARP_KEY@,
                display_name: "Punktfunk"@,
                version: "<version>"@,
                location: app,
            },
        ),
    )
}

fn client_install(facts: &WinFacts, choices: &WinChoices) -> (p: WinPlan)
    ensures
        p@ == client_install_of(*facts, *choices),
{
    let mut plan: WinPlan = WinPlan::empty();
    let app: String = app_dir(choices, Artifact::Client);
    let exe: String = app.clone().concat("\\punktfunk-client.exe");
    plan.push("Stopping running punktfunk apps", kill_all());
    plan.push(
        "Files → ".to_owned().concat(app.as_str()).as_str(),
        only(WinAction::DeployFiles { dest: app.clone() }),
    );
    let mut registry: Vec<WinAction> = only(proto(PROTO_KEY, "URL:Punktfunk stream link"));
    put(
        &mut registry,
        Argv::new().and("reg").and("add").and(PROTO_KEY).and("/v").and("URL Protocol").and(
            "/t",
        ).and("REG_SZ").and("/d").and("").and("/f").run(),
    );
    put(
        &mut registry,
        proto(
            PROTO_KEY.to_owned().concat("\\DefaultIcon").as_str(),
            exe.clone().concat(",0").as_str(),
        ),
    );
    put(
        &mut registry,
        proto(
            PROTO_KEY.to_owned().concat("\\shell\\open\\command").as_str(),
            "\"".to_owned().concat(exe.as_str()).concat("\" \"%1\"").as_str(),
        ),
    );
    put(&mut registry, WinAction::PathAdd { machine: false, dir: app.clone() });
    plan.push("Registry", registry);
    let mut links: Vec<WinAction> = only(
        WinAction::Shortcut { link: LINK_START.to_owned(), target: exe.clone() },
    );
    put(
        &mut links,
        WinAction::Shortcut {
            link: LINK_CONSOLE.to_owned(),
            target: app.clone().concat("\\punktfunk-console.exe"),
        },
    );
    if choices.desktop_icon {
        put(
            &mut links,
            WinAction::Shortcut { link: LINK_DESKTOP.to_owned(), target: exe.clone() },
        );
    }
    plan.push("Shortcuts", links);
    plan.push(
        "Windows App Runtime",
        only(WinAction::EnsureAppRuntime { arch: facts.arch.clone() }),
    );
    plan.push(
        "Register the uninstaller",
        only(
            WinAction::ArpRegister {
                key: CLIENT_ARP_KEY.to_owned(),
                display_name: "Punktfunk".to_owned(),
                version: "<version>".to_owned(),
                location: app,
            },
        ),
    );
    plan
}

/// The client's uninstall. Every link the install can lay down goes: one left behind would point
/// at nothing.
pub open spec fn client_uninstall_of(choices: WinChoices) -> Seq<WinPhaseView> {
    let app = dir_of(choices, Artifact::Client);
    and_phase(
        Seq::empty(),
        "Uninstalling the client ("@ + DOCS@ + "/uninstall)"@,
        kills().push(
            WinView::RunLenient(
                argv().push("reg"@).push("delete"@).push(PROTO_KEY@).push("/f"@),
            ),
        ).push(
            WinView::DeleteFiles {
                paths: argv().push(LINK_START@).push(LINK_CONSOLE@).push(LINK_DESKTOP@),
            },
        ).push(WinView::PathRemove { machine: false, dir: app }).push(
            WinView::ArpRemove { key: CLIENT_ARP_KEY@ },
        ).push(WinView::RemoveFiles { dir: app }),
    )
}

fn client_uninstall(choices: &WinChoices) -> (p: WinPlan)
    ensures
        p@ == client_uninstall_of(*choices),
{
    let app: String = app_dir(choices, Artifact::Client);
    let mut steps: Vec<WinAction> = kill_all();
    put(
        &mut steps,
        Argv::new().and("reg").and("delete").and(PROTO_KEY).and("/f").run_lenient(),
    );
    let paths: Argv = Argv::new().and(LINK_START).and(LINK_CONSOLE).and(LINK_DESKTOP);
    put(&mut steps, WinAction::DeleteFiles { paths: paths.words });
    put(&mut steps, WinAction::PathRemove { machine: false, dir: app.clone() });
    put(&mut steps, WinAction::ArpRemove { key: CLIENT_ARP_KEY.to_owned() });
    put(&mut steps, WinAction::RemoveFiles { dir: app });
    let mut plan: WinPlan = WinPlan::empty();
    plan.push(
        "Uninstalling the client (".to_owned().concat(DOCS).concat("/uninstall)").as_str(),
        steps,
    );
    plan
}

/// The plan.
pub open spec fn plan_of(
    cat: Catalogue,
    facts: WinFacts,
    choices: WinChoices,
    artifact: Artifact,
    uninstall: bool,
    host_key: Seq<char>,
) -> Seq<WinPhaseView> {
    match artifact {
        Artifact::Host => if uninstall {
            host_uninstall_of(facts, choices, host_key)
        } else {
            host_install_of(cat, facts, choices, host_key)
        },
        Artifact::Client => if uninstall {
            client_uninstall_of(choices)
        } else {
            client_install_of(facts, choices)
        },
    }
}

/// Builds the plan. `host_key` names the host among the installed programs.
pub fn build(
    cat: &Catalogue,
    facts: &WinFacts,
    choices: &WinChoices,
    artifact: Artifact,
    uninstall: bool,
    host_key: &str,
) -> (p: WinPlan)
    ensures
        p@ == plan_of(*cat, *facts, *choices, artifact, uninstall, host_key@),
{
    match artifact {
        Artifact::Host => if uninstall {
            host_uninstall(facts, choices, host_key)
        } else {
            host_install(cat, facts, choices, host_key)
        },
        Artifact::Client => if uninstall {
            client_uninstall(choices)
        } else {
            client_install(facts, choices)
        },
    }
}

/// A step stands in a plan.
pub open spec fn has_step(plan: Seq<WinPhaseView>, step: WinView) -> bool {
    exists|i: int, j: int|
        0 <= i < plan.len() && 0 <= j < plan[i].steps.len() && #[trigger] plan[i].steps[j] == step
}

/// A plan takes back what a step of the client's install lays down: a link is among the files it
/// deletes, and a path entry, the registered program and the files are removed under the same
/// name.
pub open spec fn takes_back(undo: Seq<WinPhaseView>, step: WinView) -> bool {
    match step {
        WinView::Shortcut { link, .. } => exists|paths: Seq<Seq<char>>|
            paths.contains(link) && #[trigger] has_step(undo, WinView::DeleteFiles { paths }),
        WinView::PathAdd { machine, dir } => has_step(undo, WinView::PathRemove { machine, dir }),
        WinView::ArpRegister { key, .. } => has_step(undo, WinView::ArpRemove { key }),
        WinView::DeployFiles { dest } => has_step(undo, WinView::RemoveFiles { dir: dest }),
        _ => true,
    }
}

/// The client's uninstall takes back every link, path entry, registered program and directory its
/// install laid down. The two runs need agree on the directory alone: whether there was a desktop
/// icon is not asked.
pub proof fn a_client_uninstall_takes_back_its_install(
    facts: WinFacts,
    installed: WinChoices,
    removed: WinChoices,
    step: WinView,
)
    requires
        dir_of(installed, Artifact::Client) == dir_of(removed, Artifact::Client),
        has_step(client_install_of(facts, installed), step),
    ensures
        takes_back(client_uninstall_of(removed), step),
{
    let undo = client_uninstall_of(removed);
    let steps = undo[0].steps;
    let k = kills().len() as int;
    let app = dir_of(removed, Artifact::Client);
    let paths = argv().push(LINK_START@).push(LINK_CONSOLE@).push(LINK_DESKTOP@);
    assert(undo.len() == 1);
    assert(steps[k + 1] == WinView::DeleteFiles { paths });
    assert(steps[k + 2] == WinView::PathRemove { machine: false, dir: app });
    assert(steps[k + 3] == WinView::ArpRemove { key: CLIENT_ARP_KEY@ });
    assert(steps[k + 4] == WinView::RemoveFiles { dir: app });
    assert(has_step(undo, WinView::DeleteFiles { paths }));
    assert(paths[0] == LINK_START@ && paths[1] == LINK_CONSOLE@ && paths[2] == LINK_DESKTOP@);
    let plan = client_install_of(facts, installed);
    let (i, j) = choose|i: int, j: int|
        0 <= i < plan.len() && 0 <= j < plan[i].steps.len() && #[trigger] plan[i].steps[j] == step;
    assert(plan.len() == 6);
    assert(plan[0].steps == kills());
    assert(plan[1].steps == one(WinView::DeployFiles { dest: app }));
    assert(plan[2].steps == client_registry(app));
    assert(plan[3].steps == client_links(installed, app));
    assert(plan[4].steps == one(WinView::EnsureAppRuntime { arch: facts.arch@ }));
}

/// A Windows that is too old is refused before anything is touched: the plan is the refusal and
/// nothing else.
pub proof fn an_old_windows_is_refused_first(
    cat: Catalogue,
    facts: WinFacts,
    choices: WinChoices,
    host_key: Seq<char>,
)
    requires
        facts.os_build < MIN_HOST_BUILD,
    ensures
        ({
            let p = host_install_of(cat, facts, choices, host_key);
            p.len() == 1 && p[0].steps =~= seq![WinView::Refuse(refusal(cat, facts))]
        }),
{
}

/// Every program of an uninstall may fail: one that is gone already never stops the sweep.
pub proof fn an_uninstall_never_stops_halfway(
    facts: WinFacts,
    choices: WinChoices,
    host_key: Seq<char>,
    i: int,
)
    requires
        0 <= i < uninstall_steps_of(uninstall_dir(facts, choices), host_key).len(),
    ensures
        !(uninstall_steps_of(uninstall_dir(facts, choices), host_key)[i] is Run),
{
}

/// The drivers may fail without ending the run.
pub proof fn a_driver_never_aborts(facts: WinFacts, choices: WinChoices, exe: Seq<char>, i: int)
    requires
        0 <= i < drivers_of(facts, choices, exe).len(),
    ensures
        !(drivers_of(facts, choices, exe)[i] is Run),
{
}

/// Without consent no network is made private.
pub proof fn no_consent_no_private_network(facts: WinFacts, choices: WinChoices, i: int)
    requires
        !(choices.network is MakePrivate),
        0 <= i < network_of(facts, choices).len(),
    ensures
        !(network_of(facts, choices)[i] is MakeNetworkPrivate),
{
}

/// The password is nowhere in the plan: whichever was typed, the plan is the same.
pub proof fn a_password_stays_out_of_the_plan(
    cat: Catalogue,
    facts: WinFacts,
    a: WinChoices,
    password: Option<String>,
    artifact: Artifact,
    uninstall: bool,
    host_key: Seq<char>,
)
    ensures
        plan_of(
            cat,
            facts,
            (WinChoices { web_password: password, ..a }),
            artifact,
            uninstall,
            host_key,
        ) == plan_of(cat, facts, a, artifact, uninstall, host_key),
{
    let b = WinChoices { web_password: password, ..a };
    assert(dir_of(a, Artifact::Host) == dir_of(b, Artifact::Host));
    assert(dir_of(a, Artifact::Client) == dir_of(b, Artifact::Client));
    let app = dir_of(a, Artifact::Host);
    assert(registry_of(facts, a, app) == registry_of(facts, b, app));
    assert(network_of(facts, a) == network_of(facts, b));
    assert(coexist_of(facts, a) == coexist_of(facts, b));
    let exe = app + "\\punktfunk-host.exe"@;
    assert(drivers_of(facts, a, exe) == drivers_of(facts, b, exe));
    assert(service_of(facts, a, exe) == service_of(facts, b, exe));
    assert(uninstall_dir(facts, a) == uninstall_dir(facts, b));
    let client = dir_of(a, Artifact::Client);
    assert(client_links(a, client) == client_links(b, client));
}

/// An upgrade stops the running host before any file is replaced, and the uninstaller is
/// registered before anything else can fail.
pub proof fn an_upgrade_stops_before_it_copies(
    cat: Catalogue,
    facts: WinFacts,
    choices: WinChoices,
    host_key: Seq<char>,
)
    requires
        facts.os_build >= MIN_HOST_BUILD,
        facts.installed is Some,
    ensures
        ({
            let p = host_install_of(cat, facts, choices, host_key);
            let app = dir_of(choices, Artifact::Host);
            let reg: int = if facts.inno_uninstaller {
                3
            } else {
                2
            };
            &&& p.len() > reg
            &&& p[0].steps == one(WinView::StopHostRuntime { app_dir: app })
            &&& p[1].steps == one(WinView::DeployFiles { dest: app })
            &&& p[reg].steps == one(
                WinView::ArpRegister {
                    key: host_key,
                    display_name: "Punktfunk Host"@,
                    version: "<version>"@,
                    location: app,
                },
            )
        }),
{
}

proof fn lemma_has_phase(p: Seq<WinPhaseView>, title: Seq<char>, steps: Seq<WinView>, x: WinView)
    ensures
        has_step(and_phase(p, title, steps), x) <==> has_step(p, x) || steps.contains(x),
{
    let q = and_phase(p, title, steps);
    if has_step(p, x) {
        let (i, j) = choose|i: int, j: int|
            0 <= i < p.len() && 0 <= j < p[i].steps.len() && #[trigger] p[i].steps[j] == x;
        assert(q[i] == p[i]);
        assert(q[i].steps[j] == x);
    }
    if steps.contains(x) {
        let j = choose|j: int| 0 <= j < steps.len() && steps[j] == x;
        assert(q[p.len() as int].steps[j] == x);
    }
    if has_step(q, x) {
        let (i, j) = choose|i: int, j: int|
            0 <= i < q.len() && 0 <= j < q[i].steps.len() && #[trigger] q[i].steps[j] == x;
        if i < p.len() {
            assert(p[i].steps[j] == x);
        } else {
            assert(steps[j] == x);
        }
    }
}

proof fn lemma_one(y: WinView, x: WinView)
    ensures
        one(y).contains(x) <==> x == y,
{
    if x == y {
        assert(one(y)[0] == x);
    }
}

/// What stands in a host's install, part by part.
proof fn lemma_host_steps(
    cat: Catalogue,
    facts: WinFacts,
    c: WinChoices,
    key: Seq<char>,
    x: WinView,
)
    requires
        facts.os_build >= MIN_HOST_BUILD,
    ensures
        has_step(host_install_of(cat, facts, c, key), x) <==> ({
            let app = dir_of(c, Artifact::Host);
            let exe = app + "\\punktfunk-host.exe"@;
            let upgrade = facts.installed is Some;
            ||| upgrade && x == (WinView::StopHostRuntime { app_dir: app })
            ||| x == (WinView::DeployFiles { dest: app })
            ||| upgrade && facts.inno_uninstaller && retire_of(app).contains(x)
            ||| x == (WinView::ArpRegister {
                key,
                display_name: "Punktfunk Host"@,
                version: "<version>"@,
                location: app,
            })
            ||| registry_of(facts, c, app).contains(x)
            ||| network_of(facts, c).contains(x)
            ||| coexist_of(facts, c).contains(x)
            ||| drivers_of(facts, c, exe).contains(x)
            ||| service_of(facts, c, exe).contains(x)
            ||| x == (WinView::WebSetup { app_dir: app, fresh_password: !facts.web_password_present })
            ||| x == (WinView::RegisterScriptingTask {
                app_dir: app,
                start_now: facts.scripting_task == TaskState::Absent,
            })
            ||| upgrade && x == (WinView::RestoreTasks {
                web_enabled: enabled_of(facts.web_task),
                scripting_enabled: enabled_of(facts.scripting_task),
            })
            ||| c.tray_autostart && x == (WinView::LaunchTray { exe: app + "\\punktfunk-tray.exe"@ })
            ||| c.install_driver && x == WinView::Run(
                argv().push(exe).push("driver"@).push("check"@),
            )
        }),
{
    let app = dir_of(c, Artifact::Host);
    let exe = app + "\\punktfunk-host.exe"@;
    let upgrade = facts.installed is Some;
    let none = Seq::<WinPhaseView>::empty();
    assert(!has_step(none, x));
    let stop = WinView::StopHostRuntime { app_dir: app };
    lemma_one(stop, x);
    lemma_has_phase(none, "Stopping the running host for the upgrade"@, one(stop), x);
    let p1 = and_phase_if(
        none,
        upgrade,
        "Stopping the running host for the upgrade"@,
        one(stop),
    );
    let deploy = WinView::DeployFiles { dest: app };
    lemma_one(deploy, x);
    lemma_has_phase(p1, "Files → "@ + app, one(deploy), x);
    let p2 = and_phase(p1, "Files → "@ + app, one(deploy));
    lemma_has_phase(p2, "Retiring the Inno Setup uninstaller"@, retire_of(app), x);
    let p3 = and_phase_if(
        p2,
        upgrade && facts.inno_uninstaller,
        "Retiring the Inno Setup uninstaller"@,
        retire_of(app),
    );
    let arp = WinView::ArpRegister {
        key,
        display_name: "Punktfunk Host"@,
        version: "<version>"@,
        location: app,
    };
    lemma_one(arp, x);
    lemma_has_phase(p3, "Register the uninstaller"@, one(arp), x);
    let p4 = and_phase(p3, "Register the uninstaller"@, one(arp));
    lemma_has_phase(p4, "Registry"@, registry_of(facts, c, app), x);
    let p5 = and_phase(p4, "Registry"@, registry_of(facts, c, app));
    lemma_has_phase(p5, "Network"@, network_of(facts, c), x);
    let p6 = and_phase(p5, "Network"@, network_of(facts, c));
    lemma_has_phase(
        p6,
        "Checking for Sunshine / Apollo / Vibeshine"@,
        coexist_of(facts, c),
        x,
    );
    let p7 = and_phase(p6, "Checking for Sunshine / Apollo / Vibeshine"@, coexist_of(facts, c));
    lemma_has_phase(
        p7,
        "Drivers (a hiccup warns and never aborts)"@,
        drivers_of(facts, c, exe),
        x,
    );
    let p8 = and_phase(p7, "Drivers (a hiccup warns and never aborts)"@, drivers_of(facts, c, exe));
    lemma_has_phase(p8, "Service"@, service_of(facts, c, exe), x);
    let p9 = and_phase(p8, "Service"@, service_of(facts, c, exe));
    let web = WinView::WebSetup { app_dir: app, fresh_password: !facts.web_password_present };
    lemma_one(web, x);
    lemma_has_phase(p9, "Web console"@, one(web), x);
    let p10 = and_phase(p9, "Web console"@, one(web));
    let runner = WinView::RegisterScriptingTask {
        app_dir: app,
        start_now: facts.scripting_task == TaskState::Absent,
    };
    lemma_one(runner, x);
    lemma_has_phase(p10, "Plugin runner"@, one(runner), x);
    let p11 = and_phase(p10, "Plugin runner"@, one(runner));
    let restore = WinView::RestoreTasks {
        web_enabled: enabled_of(facts.web_task),
        scripting_enabled: enabled_of(facts.scripting_task),
    };
    lemma_one(restore, x);
    lemma_has_phase(p11, "Restoring what the stop disabled"@, one(restore), x);
    let p12 = and_phase_if(p11, upgrade, "Restoring what the stop disabled"@, one(restore));
    let tray = WinView::LaunchTray { exe: app + "\\punktfunk-tray.exe"@ };
    lemma_one(tray, x);
    lemma_has_phase(p12, "Tray"@, one(tray), x);
    let p13 = and_phase_if(p12, c.tray_autostart, "Tray"@, one(tray));
    let check = WinView::Run(argv().push(exe).push("driver"@).push("check"@));
    lemma_one(check, x);
    lemma_has_phase(p13, "Checking the virtual display driver"@, one(check), x);
}

/// The directory of a host's install, as it is chosen: without the slashes at its end, and the
/// programs' own where none was.
pub open spec fn host_dir(c: WinChoices) -> Seq<char> {
    text::trim_back(
        if c.dir is Some {
            c.dir->0@
        } else {
            "C:\\Program Files\\punktfunk"@
        },
        Sep::Is('\\'),
    )
}

/// A Windows older than 22621 is refused before anything: the plan holds the refusal and nothing
/// else. A newer one is never refused.
#[verifier::spinoff_prover]
#[verifier::rlimit(60)]
pub proof fn an_old_windows_gets_nothing(
    cat: &Catalogue,
    facts: &WinFacts,
    c: &WinChoices,
    key: &str,
    p: WinPlan,
    t: Seq<char>,
)
    requires
        call_ensures(build, (cat, facts, c, Artifact::Host, false, key), p),
    ensures
        facts.os_build < 22621 ==> p@.len() == 1 && p@[0].steps.len() == 1 && p@[0].steps[0]
            is Refuse,
        facts.os_build >= 22621 ==> !has_step(p@, WinView::Refuse(t)) && has_step(
            p@,
            WinView::DeployFiles { dest: host_dir(*c) },
        ),
{
    if facts.os_build >= 22621 {
        lemma_host_steps(*cat, *facts, *c, key@, WinView::Refuse(t));
        lemma_host_steps(*cat, *facts, *c, key@, WinView::DeployFiles { dest: host_dir(*c) });
    }
}

/// An upgrade stops the host before anything is laid over it; a first install has none to stop.
#[verifier::spinoff_prover]
#[verifier::rlimit(60)]
pub proof fn an_upgrade_stops_the_host(
    cat: &Catalogue,
    facts: &WinFacts,
    c: &WinChoices,
    key: &str,
    p: WinPlan,
)
    requires
        call_ensures(build, (cat, facts, c, Artifact::Host, false, key), p),
        facts.os_build >= 22621,
    ensures
        has_step(p@, WinView::StopHostRuntime { app_dir: host_dir(*c) })
            <==> facts.installed is Some,
{
    let x = WinView::StopHostRuntime { app_dir: host_dir(*c) };
    lemma_host_steps(*cat, *facts, *c, key@, x);
}

/// An upgrade leaves each task as it found it: one that was on is put on, one that was off stays
/// off, and one that was not there is let be.
#[verifier::spinoff_prover]
#[verifier::rlimit(60)]
pub proof fn an_upgrade_gives_back_what_it_stopped(
    cat: &Catalogue,
    facts: &WinFacts,
    c: &WinChoices,
    key: &str,
    p: WinPlan,
    web: Option<bool>,
    runner: Option<bool>,
)
    requires
        call_ensures(build, (cat, facts, c, Artifact::Host, false, key), p),
        facts.os_build >= 22621,
    ensures
        has_step(
            p@,
            WinView::RestoreTasks { web_enabled: web, scripting_enabled: runner },
        ) <==> facts.installed is Some && web == (match facts.web_task {
            TaskState::Absent => None,
            TaskState::Enabled => Some(true),
            TaskState::Disabled => Some(false),
        }) && runner == (match facts.scripting_task {
            TaskState::Absent => None,
            TaskState::Enabled => Some(true),
            TaskState::Disabled => Some(false),
        }),
{
    let x = WinView::RestoreTasks { web_enabled: web, scripting_enabled: runner };
    lemma_host_steps(*cat, *facts, *c, key@, x);
}

/// Every install registers its uninstaller and goes into the path.
#[verifier::spinoff_prover]
#[verifier::rlimit(60)]
pub proof fn an_install_can_be_undone(
    cat: &Catalogue,
    facts: &WinFacts,
    c: &WinChoices,
    key: &str,
    p: WinPlan,
)
    requires
        call_ensures(build, (cat, facts, c, Artifact::Host, false, key), p),
        facts.os_build >= 22621,
    ensures
        has_step(
            p@,
            WinView::ArpRegister {
                key: key@,
                display_name: "Punktfunk Host"@,
                version: "<version>"@,
                location: host_dir(*c),
            },
        ),
        has_step(p@, WinView::PathAdd { machine: true, dir: host_dir(*c) }),
{
    let app = host_dir(*c);
    let arp = WinView::ArpRegister {
        key: key@,
        display_name: "Punktfunk Host"@,
        version: "<version>"@,
        location: app,
    };
    lemma_host_steps(*cat, *facts, *c, key@, arp);
    let path = WinView::PathAdd { machine: true, dir: app };
    lemma_host_steps(*cat, *facts, *c, key@, path);
    let r = registry_of(*facts, *c, app);
    assert(r[r.len() - 1] == path);
}

/// The console is set up with every install; a password is made exactly where there is none.
#[verifier::spinoff_prover]
#[verifier::rlimit(60)]
pub proof fn a_password_is_made_where_there_is_none(
    cat: &Catalogue,
    facts: &WinFacts,
    c: &WinChoices,
    key: &str,
    p: WinPlan,
    fresh: bool,
)
    requires
        call_ensures(build, (cat, facts, c, Artifact::Host, false, key), p),
        facts.os_build >= 22621,
    ensures
        has_step(p@, WinView::WebSetup { app_dir: host_dir(*c), fresh_password: fresh })
            <==> fresh == !facts.web_password_present,
{
    let x = WinView::WebSetup { app_dir: host_dir(*c), fresh_password: fresh };
    lemma_host_steps(*cat, *facts, *c, key@, x);
}

/// The runner is registered with every install and started exactly where it is new.
#[verifier::spinoff_prover]
#[verifier::rlimit(60)]
pub proof fn a_new_runner_is_started(
    cat: &Catalogue,
    facts: &WinFacts,
    c: &WinChoices,
    key: &str,
    p: WinPlan,
    now: bool,
)
    requires
        call_ensures(build, (cat, facts, c, Artifact::Host, false, key), p),
        facts.os_build >= 22621,
    ensures
        has_step(p@, WinView::RegisterScriptingTask { app_dir: host_dir(*c), start_now: now })
            <==> now == (facts.scripting_task == TaskState::Absent),
{
    let x = WinView::RegisterScriptingTask { app_dir: host_dir(*c), start_now: now };
    lemma_host_steps(*cat, *facts, *c, key@, x);
}

/// The tray is launched exactly where it was chosen to start with Windows.
#[verifier::spinoff_prover]
#[verifier::rlimit(60)]
pub proof fn the_tray_is_launched_where_chosen(
    cat: &Catalogue,
    facts: &WinFacts,
    c: &WinChoices,
    key: &str,
    p: WinPlan,
)
    requires
        call_ensures(build, (cat, facts, c, Artifact::Host, false, key), p),
        facts.os_build >= 22621,
    ensures
        has_step(p@, WinView::LaunchTray { exe: host_dir(*c) + "\\punktfunk-tray.exe"@ })
            <==> c.tray_autostart,
{
    let x = WinView::LaunchTray { exe: host_dir(*c) + "\\punktfunk-tray.exe"@ };
    lemma_host_steps(*cat, *facts, *c, key@, x);
}

/// A network is made private only by that answer, and then it is the one named.
#[verifier::spinoff_prover]
#[verifier::rlimit(60)]
pub proof fn a_network_is_made_private_by_consent(
    cat: &Catalogue,
    facts: &WinFacts,
    c: &WinChoices,
    key: &str,
    p: WinPlan,
    name: Seq<char>,
)
    requires
        call_ensures(build, (cat, facts, c, Artifact::Host, false, key), p),
        facts.os_build >= 22621,
    ensures
        has_step(p@, WinView::MakeNetworkPrivate { network: name }) <==> (
        c.network matches NetworkAnswer::MakePrivate(n) && n@ == name),
{
    let x = WinView::MakeNetworkPrivate { network: name };
    lemma_host_steps(*cat, *facts, *c, key@, x);
    let n = network_of(*facts, *c);
    if let NetworkAnswer::MakePrivate(m) = c.network {
        assert(n[0] == WinView::MakeNetworkPrivate { network: m@ });
    }
}

/// A driver is installed where that was chosen, by a line that may fail, and checked at the end.
#[verifier::spinoff_prover]
#[verifier::rlimit(60)]
pub proof fn a_chosen_driver_is_installed(
    cat: &Catalogue,
    facts: &WinFacts,
    c: &WinChoices,
    key: &str,
    p: WinPlan,
)
    requires
        call_ensures(build, (cat, facts, c, Artifact::Host, false, key), p),
        facts.os_build >= 22621,
    ensures
        ({
            let exe = host_dir(*c) + "\\punktfunk-host.exe"@;
            &&& c.install_driver ==> has_step(
                p@,
                WinView::RunLenient(
                    seq![exe, "driver"@, "install"@, "--dir"@, "<staging>\\pfvdisplay"@],
                ),
            ) && has_step(p@, WinView::Run(seq![exe, "driver"@, "check"@]))
            &&& c.install_gamepad ==> has_step(
                p@,
                WinView::RunLenient(
                    seq![
                        exe,
                        "driver"@,
                        "install"@,
                        "--gamepad"@,
                        "--dir"@,
                        "<staging>\\gamepad"@,
                    ],
                ),
            )
            &&& !c.install_driver ==> !has_step(
                p@,
                WinView::RunLenient(
                    seq![exe, "driver"@, "install"@, "--dir"@, "<staging>\\pfvdisplay"@],
                ),
            )
            &&& !c.install_gamepad ==> !has_step(
                p@,
                WinView::RunLenient(
                    seq![
                        exe,
                        "driver"@,
                        "install"@,
                        "--gamepad"@,
                        "--dir"@,
                        "<staging>\\gamepad"@,
                    ],
                ),
            )
        }),
{
    let app = host_dir(*c);
    let exe = app + "\\punktfunk-host.exe"@;
    let a = seq![exe, "driver"@, "install"@, "--dir"@, "<staging>\\pfvdisplay"@];
    let b = seq![exe, "driver"@, "install"@, "--gamepad"@, "--dir"@, "<staging>\\gamepad"@];
    let k = seq![exe, "driver"@, "check"@];
    assert(a =~= argv().push(exe).push("driver"@).push("install"@).push("--dir"@).push(
        "<staging>\\pfvdisplay"@,
    ));
    assert(b =~= argv().push(exe).push("driver"@).push("install"@).push("--gamepad"@).push(
        "--dir"@,
    ).push("<staging>\\gamepad"@));
    assert(k =~= argv().push(exe).push("driver"@).push("check"@));
    let xa = WinView::RunLenient(a);
    let xb = WinView::RunLenient(b);
    lemma_host_steps(*cat, *facts, *c, key@, xa);
    lemma_host_steps(*cat, *facts, *c, key@, xb);
    lemma_host_steps(*cat, *facts, *c, key@, WinView::Run(k));
    let d = drivers_of(*facts, *c, exe);
    if c.install_driver {
        assert(d[0] == xa);
    }
    if c.install_gamepad {
        assert(d[if c.install_driver {
            1int
        } else {
            0
        }] == xb);
    }
    reveal_strlit("reg");
    reveal_strlit("\\punktfunk-host.exe");
    assert(exe != "reg"@) by {
        assert(exe.len() > "reg"@.len());
    }
    let r = registry_of(*facts, *c, app);
    if r.contains(xa) {
        let i = choose|i: int| 0 <= i < r.len() && r[i] == xa;
        assert(a[0] == exe);
        assert(r[i] is RunLenient);
        assert(r[i]->RunLenient_0[0] == "reg"@);
    }
    if r.contains(xb) {
        let i = choose|i: int| 0 <= i < r.len() && r[i] == xb;
        assert(b[0] == exe);
        assert(r[i] is RunLenient);
        assert(r[i]->RunLenient_0[0] == "reg"@);
    }
    assert(a.len() == 5 && b.len() == 6);
}

proof fn lemma_service_words(facts: WinFacts, c: WinChoices, exe: Seq<char>)
    ensures
        ({
            let none = Seq::<Seq<char>>::empty();
            service_argv(facts, c, exe) == seq![exe, "service"@, "install"@] + (match c.gamestream {
                Some(true) => seq!["--gamestream=on"@],
                Some(false) => seq!["--gamestream=off"@],
                None => none,
            }) + (match c.allow_public_fw {
                Some(true) => seq!["--allow-public-network=on"@],
                Some(false) => seq!["--allow-public-network=off"@],
                None => none,
            }) + (if facts.competing_hosts@.len() > 0 && !facts.mgmt_bind_set {
                seq!["--mgmt-bind=0.0.0.0:"@ + text::decimal(47991)]
            } else {
                none
            }) + (match c.web_bind {
                Some(addr) => seq!["--web-bind="@ + addr@],
                None => none,
            })
        }),
{
    let none = Seq::<Seq<char>>::empty();
    reveal_strlit("on");
    reveal_strlit("off");
    reveal_strlit("--gamestream=");
    reveal_strlit("--gamestream=on");
    reveal_strlit("--gamestream=off");
    reveal_strlit("--allow-public-network=");
    reveal_strlit("--allow-public-network=on");
    reveal_strlit("--allow-public-network=off");
    assert("--gamestream=on"@ =~= "--gamestream="@ + "on"@);
    assert("--gamestream=off"@ =~= "--gamestream="@ + "off"@);
    assert("--allow-public-network=on"@ =~= "--allow-public-network="@ + "on"@);
    assert("--allow-public-network=off"@ =~= "--allow-public-network="@ + "off"@);
    let words = seq![exe, "service"@, "install"@] + (match c.gamestream {
                Some(true) => seq!["--gamestream=on"@],
                Some(false) => seq!["--gamestream=off"@],
                None => none,
            }) + (match c.allow_public_fw {
                Some(true) => seq!["--allow-public-network=on"@],
                Some(false) => seq!["--allow-public-network=off"@],
                None => none,
            }) + (if facts.competing_hosts@.len() > 0 && !facts.mgmt_bind_set {
                seq!["--mgmt-bind=0.0.0.0:"@ + text::decimal(47991)]
            } else {
                none
            }) + (match c.web_bind {
                Some(addr) => seq!["--web-bind="@ + addr@],
                None => none,
            });
    assert(words =~= service_argv(facts, c, exe));
}

/// The service is installed with what was chosen and keeps the rest: each switch is named only
/// where it was answered, and the port moves only beside another host.
#[verifier::spinoff_prover]
#[verifier::rlimit(60)]
pub proof fn the_service_is_told_what_was_chosen(
    cat: &Catalogue,
    facts: &WinFacts,
    c: &WinChoices,
    key: &str,
    p: WinPlan,
)
    requires
        call_ensures(build, (cat, facts, c, Artifact::Host, false, key), p),
        facts.os_build >= 22621,
    ensures
        ({
            let exe = host_dir(*c) + "\\punktfunk-host.exe"@;
            let none = Seq::<Seq<char>>::empty();
            has_step(p@, WinView::Run(seq![exe, "service"@, "install"@] + (match c.gamestream {
                Some(true) => seq!["--gamestream=on"@],
                Some(false) => seq!["--gamestream=off"@],
                None => none,
            }) + (match c.allow_public_fw {
                Some(true) => seq!["--allow-public-network=on"@],
                Some(false) => seq!["--allow-public-network=off"@],
                None => none,
            }) + (if facts.competing_hosts@.len() > 0 && !facts.mgmt_bind_set {
                seq!["--mgmt-bind=0.0.0.0:"@ + text::decimal(47991)]
            } else {
                none
            }) + (match c.web_bind {
                Some(addr) => seq!["--web-bind="@ + addr@],
                None => none,
            })))
        }),
{
    let exe = host_dir(*c) + "\\punktfunk-host.exe"@;
    lemma_service_words(*facts, *c, exe);
    let install = WinView::Run(service_argv(*facts, *c, exe));
    lemma_host_steps(*cat, *facts, *c, key@, install);
    let v = service_of(*facts, *c, exe);
    assert(v[0] == install);
}

proof fn lemma_not_a_start(facts: WinFacts, c: WinChoices, app: Seq<char>)
    ensures
        ({
            let exe = app + "\\punktfunk-host.exe"@;
            let start = WinView::Run(seq![exe, "service"@, "start"@]);
            &&& !registry_of(facts, c, app).contains(start)
            &&& service_of(facts, c, exe).contains(start) <==> c.start_service
            &&& start != WinView::Run(argv().push(exe).push("driver"@).push("check"@))
        }),
{
    let exe = app + "\\punktfunk-host.exe"@;
    let s = seq![exe, "service"@, "start"@];
    assert(s =~= argv().push(exe).push("service"@).push("start"@));
    let start = WinView::Run(s);
    reveal_strlit("reg");
    reveal_strlit("\\punktfunk-host.exe");
    reveal_strlit("start");
    reveal_strlit("install");
    reveal_strlit("driver");
    reveal_strlit("service");
    assert(exe.len() > "reg"@.len());
    assert(s[0] == exe && s[1] == "service"@ && s[2] == "start"@);
    let r = registry_of(facts, c, app);
    if r.contains(start) {
        let i = choose|i: int| 0 <= i < r.len() && r[i] == start;
        assert(r[i] is Run);
        assert(r[i]->Run_0[0] == "reg"@);
    }
    let words = service_argv(facts, c, exe);
    assert(words[2] == "install"@);
    assert("install"@.len() != "start"@.len());
    assert(WinView::Run(words) != start);
    let v = service_of(facts, c, exe);
    assert(v[0] == WinView::Run(words));
    if c.start_service {
        assert(v[1] == start);
    }
    let check = argv().push(exe).push("driver"@).push("check"@);
    assert(check[1] == "driver"@);
    assert("driver"@.len() != "service"@.len());
    assert(check != s);
}

/// The service is started exactly where that was chosen.
#[verifier::spinoff_prover]
#[verifier::rlimit(60)]
pub proof fn the_service_is_started_where_chosen(
    cat: &Catalogue,
    facts: &WinFacts,
    c: &WinChoices,
    key: &str,
    p: WinPlan,
)
    requires
        call_ensures(build, (cat, facts, c, Artifact::Host, false, key), p),
        facts.os_build >= 22621,
    ensures
        has_step(
            p@,
            WinView::Run(
                seq![host_dir(*c) + "\\punktfunk-host.exe"@, "service"@, "start"@],
            ),
        ) <==> c.start_service,
{
    let app = host_dir(*c);
    let exe = app + "\\punktfunk-host.exe"@;
    let start = WinView::Run(seq![exe, "service"@, "start"@]);
    lemma_not_a_start(*facts, *c, app);
    lemma_host_steps(*cat, *facts, *c, key@, start);
}

/// The tray starts with Windows exactly where that was chosen, under a quoted path, and a stale
/// entry goes; the graphics layer is registered where that was chosen and taken off where it was
/// not.
#[verifier::spinoff_prover]
#[verifier::rlimit(60)]
pub proof fn the_registry_follows_the_choices(
    cat: &Catalogue,
    facts: &WinFacts,
    c: &WinChoices,
    key: &str,
    p: WinPlan,
)
    requires
        call_ensures(build, (cat, facts, c, Artifact::Host, false, key), p),
        facts.os_build >= 22621,
    ensures
        ({
            let app = host_dir(*c);
            let run = "HKLM\\SOFTWARE\\Microsoft\\Windows\\CurrentVersion\\Run"@;
            let layers = "HKLM\\SOFTWARE\\Khronos\\Vulkan\\ImplicitLayers"@;
            let layer = app + "\\vklayer\\pf_vkhdr_layer.json"@;
            &&& c.tray_autostart ==> has_step(
                p@,
                WinView::Run(
                    seq![
                        "reg"@,
                        "add"@,
                        run,
                        "/v"@,
                        "PunktfunkTray"@,
                        "/t"@,
                        "REG_SZ"@,
                        "/d"@,
                        "\""@ + app + "\\punktfunk-tray.exe\""@,
                        "/f"@,
                    ],
                ),
            )
            &&& !c.tray_autostart && facts.tray_autostart ==> has_step(
                p@,
                WinView::Run(seq!["reg"@, "delete"@, run, "/v"@, "PunktfunkTray"@, "/f"@]),
            )
            &&& c.install_hdr_layer ==> has_step(
                p@,
                WinView::Run(
                    seq![
                        "reg"@,
                        "add"@,
                        layers,
                        "/v"@,
                        layer,
                        "/t"@,
                        "REG_DWORD"@,
                        "/d"@,
                        "0"@,
                        "/f"@,
                    ],
                ),
            )
            &&& !c.install_hdr_layer && facts.vulkan_layer_registered ==> has_step(
                p@,
                WinView::RunLenient(seq!["reg"@, "delete"@, layers, "/v"@, layer, "/f"@]),
            )
        }),
{
    let app = host_dir(*c);
    let run = RUN_KEY@;
    let layers = LAYERS_KEY@;
    let layer = app + "\\vklayer\\pf_vkhdr_layer.json"@;
    let r = registry_of(*facts, *c, app);
    let n: int = if c.tray_autostart || facts.tray_autostart {
        1
    } else {
        0
    };
    let a = seq![
        "reg"@,
        "add"@,
        run,
        "/v"@,
        "PunktfunkTray"@,
        "/t"@,
        "REG_SZ"@,
        "/d"@,
        "\""@ + app + "\\punktfunk-tray.exe\""@,
        "/f"@,
    ];
    let b = seq!["reg"@, "delete"@, run, "/v"@, "PunktfunkTray"@, "/f"@];
    let d = seq!["reg"@, "add"@, layers, "/v"@, layer, "/t"@, "REG_DWORD"@, "/d"@, "0"@, "/f"@];
    let e = seq!["reg"@, "delete"@, layers, "/v"@, layer, "/f"@];
    if c.tray_autostart {
        assert(r[0]->Run_0 =~= a);
        assert(r[0] == WinView::Run(a));
        lemma_host_steps(*cat, *facts, *c, key@, r[0]);
    } else if facts.tray_autostart {
        assert(r[0]->Run_0 =~= b);
        assert(r[0] == WinView::Run(b));
        lemma_host_steps(*cat, *facts, *c, key@, r[0]);
    }
    if c.install_hdr_layer {
        assert(r[n + 2]->Run_0 =~= d);
        assert(r[n + 2] == WinView::Run(d));
        lemma_host_steps(*cat, *facts, *c, key@, r[n + 2]);
    } else if facts.vulkan_layer_registered {
        assert(r[n + 2]->RunLenient_0 =~= e);
        assert(r[n + 2] == WinView::RunLenient(e));
        lemma_host_steps(*cat, *facts, *c, key@, r[n + 2]);
    }
}

/// An uninstall takes the service off first and the files last, from where the install says it
/// is; nothing in it can stop it halfway.
pub proof fn an_uninstall_takes_the_service_off_first(
    cat: &Catalogue,
    facts: &WinFacts,
    c: &WinChoices,
    key: &str,
    p: WinPlan,
    i: int,
)
    requires
        call_ensures(build, (cat, facts, c, Artifact::Host, true, key), p),
    ensures
        ({
            let app = if facts.installed is Some && facts.installed->0.location is Some {
                text::trim_back(facts.installed->0.location->0@, Sep::Is('\\'))
            } else {
                host_dir(*c)
            };
            let s = p@[0].steps;
            &&& p@.len() == 1
            &&& s.len() >= 4
            &&& s[0] == WinView::RunLenient(
                seq![app + "\\punktfunk-host.exe"@, "service"@, "uninstall"@],
            )
            &&& s[s.len() - 2] == (WinView::RemoveFiles { dir: app })
            &&& s.last() is Note
            &&& has_step(p@, WinView::PathRemove { machine: true, dir: app })
            &&& has_step(p@, WinView::ArpRemove { key: key@ })
            &&& has_step(p@, WinView::KillPortListeners { ports: seq![47992u16, 3000u16] })
            &&& 0 <= i < s.len() ==> !(s[i] is Run) && !(s[i] is Refuse)
            &&& 0 <= i < s.len() - 2 ==> !(s[i] is RemoveFiles)
        }),
{
    let app = uninstall_dir(*facts, *c);
    let s = uninstall_steps_of(app, key@);
    assert(p@[0].steps == s);
    let first = seq![app + "\\punktfunk-host.exe"@, "service"@, "uninstall"@];
    assert(s[0]->RunLenient_0 =~= first);
    assert(s[0] == WinView::RunLenient(first));
    let k = uninstall_runtime(app).len() as int;
    let ports = seq![47992u16, 3000u16];
    assert(s[k]->KillPortListeners_ports =~= ports);
    assert(s[k] == (WinView::KillPortListeners { ports }));
    assert(s[k + 3] == (WinView::PathRemove { machine: true, dir: app }));
    assert(s[k + 4] == (WinView::ArpRemove { key: key@ }));
    assert(p@[0].steps[k] == s[k] && p@[0].steps[k + 3] == s[k + 3] && p@[0].steps[k + 4]
        == s[k + 4]);
}

/// A client's install stops what runs, lays down its files, links and entry in the user's own
/// profile, and its uninstall takes each of them back.
pub proof fn a_client_comes_and_goes(
    cat: &Catalogue,
    facts: &WinFacts,
    c: &WinChoices,
    key: &str,
    p: WinPlan,
    undo: WinPlan,
    step: WinView,
)
    requires
        call_ensures(build, (cat, facts, c, Artifact::Client, false, key), p),
        call_ensures(build, (cat, facts, c, Artifact::Client, true, key), undo),
    ensures
        has_step(p@, step) ==> takes_back(undo@, step),
        ({
            let app = text::trim_back(
                if c.dir is Some {
                    c.dir->0@
                } else {
                    "%LocalAppData%\\Programs\\Punktfunk"@
                },
                Sep::Is('\\'),
            );
            &&& has_step(p@, WinView::DeployFiles { dest: app })
            &&& has_step(p@, WinView::PathAdd { machine: false, dir: app })
            &&& has_step(
                p@,
                WinView::Shortcut {
                    link: "<start menu>\\Punktfunk.lnk"@,
                    target: app + "\\punktfunk-client.exe"@,
                },
            )
            &&& c.desktop_icon ==> has_step(
                p@,
                WinView::Shortcut {
                    link: "<desktop>\\Punktfunk.lnk"@,
                    target: app + "\\punktfunk-client.exe"@,
                },
            )
            &&& !c.desktop_icon ==> p@[3].steps.len() == 2
            &&& has_step(p@, WinView::EnsureAppRuntime { arch: facts.arch@ })
            &&& has_step(
                p@,
                WinView::ArpRegister {
                    key: CLIENT_ARP_KEY@,
                    display_name: "Punktfunk"@,
                    version: "<version>"@,
                    location: app,
                },
            )
            &&& has_step(undo@, WinView::RemoveFiles { dir: app })
        }),
{
    if has_step(p@, step) {
        a_client_uninstall_takes_back_its_install(*facts, *c, *c, step);
    }
    let app = dir_of(*c, Artifact::Client);
    assert(p@.len() == 6);
    assert(p@[1].steps == one(WinView::DeployFiles { dest: app }));
    assert(p@[1].steps[0] == (WinView::DeployFiles { dest: app }));
    assert(p@[2].steps == client_registry(app));
    assert(p@[2].steps[4] == (WinView::PathAdd { machine: false, dir: app }));
    assert(p@[3].steps == client_links(*c, app));
    assert(p@[3].steps[0] == (WinView::Shortcut {
        link: LINK_START@,
        target: app + "\\punktfunk-client.exe"@,
    }));
    if c.desktop_icon {
        assert(p@[3].steps[2] == (WinView::Shortcut {
            link: LINK_DESKTOP@,
            target: app + "\\punktfunk-client.exe"@,
        }));
    }
    assert(p@[4].steps[0] == (WinView::EnsureAppRuntime { arch: facts.arch@ }));
    assert(p@[5].steps[0] == (WinView::ArpRegister {
        key: CLIENT_ARP_KEY@,
        display_name: "Punktfunk"@,
        version: "<version>"@,
        location: app,
    }));
    let s = undo@[0].steps;
    assert(s[s.len() - 1] == (WinView::RemoveFiles { dir: app }));
    assert(undo@.len() == 1);
}

/// An argument with a blank is shown in quotes and any other as it is; the arguments stand in
/// order with a blank between.
pub proof fn an_argument_with_a_blank_is_quoted(argv: &Vec<String>, s: String, a: &Vec<String>, one_shown: String)
    requires
        call_ensures(join_argv, (argv,), s),
        a@.len() == 1,
        call_ensures(join_argv, (a,), one_shown),
    ensures
        a@[0]@.contains(' ') ==> one_shown@ == seq!['"'] + a@[0]@ + seq!['"'],
        !a@[0]@.contains(' ') ==> one_shown@ == a@[0]@,
        argv@.len() == 0 ==> s@.len() == 0,
        argv@.len() == 2 && !argv@[0]@.contains(' ') && !argv@[1]@.contains(' ') ==> s@
            == argv@[0]@ + seq![' '] + argv@[1]@,
{
    reveal_strlit("\"");
    reveal_strlit(" ");
    assert("\""@ =~= seq!['"']);
    assert(" "@ =~= seq![' ']);
    let f = |x: Seq<char>| shown_arg(x);
    let l = text::contents(a@).map_values(f);
    assert(l.len() == 1 && l[0] == shown_arg(a@[0]@));
    let m = text::contents(argv@).map_values(f);
    assert(m.len() == argv@.len());
    if argv@.len() == 2 {
        assert(m[0] == shown_arg(argv@[0]@) && m[1] == shown_arg(argv@[1]@));
        assert(m.drop_last() =~= seq![m[0]]);
        assert(text::joined(seq![m[0]], " "@) == m[0]);
    }
}

/// Every program a plan starts is among its command lines, as it is shown.
pub proof fn every_program_is_shown(
    p: &WinPlan,
    steps: Vec<&WinAction>,
    cmds: Vec<String>,
    i: int,
    words: &Vec<String>,
    shown: String,
)
    requires
        call_ensures(WinPlan::steps, (p,), steps),
        call_ensures(WinPlan::commands, (p,), cmds),
        0 <= i < steps@.len(),
        *steps@[i] matches WinAction::Run(a) ==> *words == a,
        *steps@[i] matches WinAction::RunLenient(a) ==> *words == a,
        call_ensures(join_argv, (words,), shown),
    ensures
        *steps@[i] is Run || *steps@[i] is RunLenient ==> text::contents(cmds@).contains(shown@),
        cmds@.len() <= steps@.len(),
{
    let all = refs_view(steps@);
    assert(all.len() == steps@.len());
    assert(all[i] == steps@[i]@);
    assert(text::contents(cmds@).len() == cmds@.len());
    lemma_shown(all, i);
}

proof fn lemma_shown(s: Seq<WinView>, i: int)
    requires
        0 <= i < s.len(),
    ensures
        s[i] matches WinView::Run(a) ==> commands_of(s).contains(shown_line(a)),
        s[i] matches WinView::RunLenient(a) ==> commands_of(s).contains(shown_line(a)),
        commands_of(s).len() <= s.len(),
    decreases s.len(),
{
    let d = s.drop_last();
    let rest = commands_of(d);
    let all = commands_of(s);
    if d.len() > 0 {
        lemma_shown(
            d,
            if i < d.len() {
                i
            } else {
                0
            },
        );
    } else {
        assert(rest.len() == 0);
    }
    if s[i] is Run || s[i] is RunLenient {
        let line = if s[i] is Run {
            shown_line(s[i]->Run_0)
        } else {
            shown_line(s[i]->RunLenient_0)
        };
        if i < d.len() {
            assert(d[i] == s[i]);
            let k = choose|k: int| 0 <= k < rest.len() && rest[k] == line;
            assert(all[k] == line);
        } else {
            assert(all[rest.len() as int] == line);
        }
    }
}

/// An older uninstaller is retired by the upgrade that finds one, and only then.
#[verifier::spinoff_prover]
#[verifier::rlimit(60)]
pub proof fn an_old_uninstaller_is_retired(
    cat: &Catalogue,
    facts: &WinFacts,
    c: &WinChoices,
    key: &str,
    p: WinPlan,
)
    requires
        call_ensures(build, (cat, facts, c, Artifact::Host, false, key), p),
        facts.os_build >= 22621,
    ensures
        has_step(
            p@,
            WinView::DeleteFiles {
                paths: seq![host_dir(*c) + "\\unins000.dat"@, host_dir(*c) + "\\unins000.msg"@],
            },
        ) <==> facts.installed is Some && facts.inno_uninstaller,
{
    let app = host_dir(*c);
    let paths = seq![app + "\\unins000.dat"@, app + "\\unins000.msg"@];
    assert(paths =~= argv().push(app + "\\unins000.dat"@).push(app + "\\unins000.msg"@));
    let x = WinView::DeleteFiles { paths };
    lemma_host_steps(*cat, *facts, *c, key@, x);
    assert(retire_of(app)[0] == x);
}

/// A public network that is left as it is, with its rules closed, is warned of by its name; a
/// network that is made private is told so.
#[verifier::spinoff_prover]
#[verifier::rlimit(60)]
pub proof fn a_network_left_public_is_warned_of(
    cat: &Catalogue,
    facts: &WinFacts,
    c: &WinChoices,
    key: &str,
    p: WinPlan,
    public: Vec<String>,
)
    requires
        call_ensures(build, (cat, facts, c, Artifact::Host, false, key), p),
        facts.os_build >= 22621,
        call_ensures(WinFacts::public_networks, (facts,), public),
    ensures
        ({
            let left = c.network is Skip && c.allow_public_fw != Some(true) && exists|i: int|
                0 <= i < facts.networks@.len() && (#[trigger] facts.networks@[i]).is_public;
            &&& left ==> has_step(
                p@,
                WinView::Note(
                    Level::Warn,
                    "network '"@ + text::joined(text::contents(public@), "', '"@)
                        + "' is set to Public, and the firewall rules below don't apply there — the host will be unreachable until the network is Private or the public rules are added ("@
                        + DOCS@ + "/troubleshooting#windows-firewall)"@,
                ),
            )
            &&& c.network matches NetworkAnswer::MakePrivate(n) ==> has_step(
                p@,
                WinView::Note(
                    Level::Good,
                    "network '"@ + n@
                        + "' becomes Private — the standard firewall rules apply there"@,
                ),
            )
        }),
{
    crate::setup::platform::windows::lemma_somewhere_public(*facts);
    let n = network_of(*facts, *c);
    if c.network is MakePrivate {
        lemma_host_steps(*cat, *facts, *c, key@, n[1]);
        assert(n.contains(n[1]));
    } else if n.len() > 0 {
        lemma_host_steps(*cat, *facts, *c, key@, n[0]);
        assert(n.contains(n[0]));
    }
}

/// Another streaming host on the box is named and the moved port told; a driver that is left
/// behind by an upgrade is warned of.
#[verifier::spinoff_prover]
#[verifier::rlimit(60)]
pub proof fn another_host_is_warned_of(
    cat: &Catalogue,
    facts: &WinFacts,
    c: &WinChoices,
    key: &str,
    p: WinPlan,
)
    requires
        call_ensures(build, (cat, facts, c, Artifact::Host, false, key), p),
        facts.os_build >= 22621,
    ensures
        facts.competing_hosts@.len() > 0 && !facts.mgmt_bind_set ==> has_step(
            p@,
            WinView::Note(
                Level::Warn,
                facts.competing_hosts@[0]@
                    + " is active on this box — both want TCP 47990 (its web UI, punktfunk's management API)"@,
            ),
        ) && has_step(
            p@,
            WinView::Note(
                Level::Good,
                "PUNKTFUNK_MGMT_BIND=0.0.0.0:"@ + text::decimal(47991)
                    + " — the service step writes it to host.env and opens the firewall for it"@,
            ),
        ),
        facts.installed is Some && !c.install_driver ==> has_step(
            p@,
            WinView::Note(
                Level::Warn,
                "the virtual-display driver is NOT being updated with this host — the two must match, or every session ends with 'driver outdated'"@,
            ),
        ),
{
    let n = coexist_of(*facts, *c);
    if facts.coexists() {
        lemma_host_steps(*cat, *facts, *c, key@, n[0]);
        lemma_host_steps(*cat, *facts, *c, key@, n[1]);
        assert(n.contains(n[0]) && n.contains(n[1]));
    }
    let exe = host_dir(*c) + "\\punktfunk-host.exe"@;
    let d = drivers_of(*facts, *c, exe);
    if facts.installed is Some && !c.install_driver {
        lemma_host_steps(*cat, *facts, *c, key@, d[d.len() - 1]);
        assert(d.contains(d[d.len() - 1]));
    }
}

/// Toasts bear the name and the picture of the install.
#[verifier::spinoff_prover]
#[verifier::rlimit(60)]
pub proof fn toasts_bear_the_name(
    cat: &Catalogue,
    facts: &WinFacts,
    c: &WinChoices,
    key: &str,
    p: WinPlan,
)
    requires
        call_ensures(build, (cat, facts, c, Artifact::Host, false, key), p),
        facts.os_build >= 22621,
    ensures
        ({
            let at = "HKLM\\SOFTWARE\\Classes\\AppUserModelId\\unom.punktfunk.tray"@;
            &&& has_step(
                p@,
                WinView::Run(
                    seq![
                        "reg"@,
                        "add"@,
                        at,
                        "/v"@,
                        "DisplayName"@,
                        "/t"@,
                        "REG_SZ"@,
                        "/d"@,
                        "Punktfunk"@,
                        "/f"@,
                    ],
                ),
            )
            &&& has_step(
                p@,
                WinView::Run(
                    seq![
                        "reg"@,
                        "add"@,
                        at,
                        "/v"@,
                        "IconUri"@,
                        "/t"@,
                        "REG_SZ"@,
                        "/d"@,
                        host_dir(*c) + "\\punktfunk.ico"@,
                        "/f"@,
                    ],
                ),
            )
        }),
{
    let app = host_dir(*c);
    let at = AUMID_KEY@;
    let a = seq![
        "reg"@,
        "add"@,
        at,
        "/v"@,
        "DisplayName"@,
        "/t"@,
        "REG_SZ"@,
        "/d"@,
        "Punktfunk"@,
        "/f"@,
    ];
    let b = seq![
        "reg"@,
        "add"@,
        at,
        "/v"@,
        "IconUri"@,
        "/t"@,
        "REG_SZ"@,
        "/d"@,
        app + "\\punktfunk.ico"@,
        "/f"@,
    ];
    let r = registry_of(*facts, *c, app);
    let n: int = if c.tray_autostart || facts.tray_autostart {
        1
    } else {
        0
    };
    assert(r[n]->Run_0 =~= a);
    assert(r[n] == WinView::Run(a));
    assert(r[n + 1]->Run_0 =~= b);
    assert(r[n + 1] == WinView::Run(b));
    assert(r.contains(r[n]) && r.contains(r[n + 1]));
    lemma_host_steps(*cat, *facts, *c, key@, r[n]);
    lemma_host_steps(*cat, *facts, *c, key@, r[n + 1]);
}

/// An uninstall takes back what an install set up: the tray and its entry, the three drivers, the
/// toasts, the graphics layer and the rules, and it says what it keeps.
#[verifier::spinoff_prover]
#[verifier::rlimit(60)]
pub proof fn an_uninstall_takes_back_what_was_set_up(
    cat: &Catalogue,
    facts: &WinFacts,
    c: &WinChoices,
    key: &str,
    p: WinPlan,
)
    requires
        call_ensures(build, (cat, facts, c, Artifact::Host, true, key), p),
        facts.installed is None,
    ensures
        ({
            let app = host_dir(*c);
            let exe = app + "\\punktfunk-host.exe"@;
            let s = p@[0].steps;
            let n = s.len() as int;
            &&& n >= 12
            &&& s[1] == WinView::RunLenient(seq![app + "\\punktfunk-tray.exe"@, "--quit"@])
            &&& s[3] == WinView::RunLenient(seq![exe, "driver"@, "uninstall"@])
            &&& s[4] == WinView::RunLenient(seq![exe, "driver"@, "uninstall"@, "--gamepad"@])
            &&& s[5] == WinView::RunLenient(seq![exe, "driver"@, "uninstall"@, "--audio"@])
            &&& s[n - 5] == WinView::RunLenient(
                seq![
                    "reg"@,
                    "delete"@,
                    "HKLM\\SOFTWARE\\Microsoft\\Windows\\CurrentVersion\\Run"@,
                    "/v"@,
                    "PunktfunkTray"@,
                    "/f"@,
                ],
            )
            &&& s[n - 4] == WinView::RunLenient(
                seq![
                    "reg"@,
                    "delete"@,
                    "HKLM\\SOFTWARE\\Classes\\AppUserModelId\\unom.punktfunk.tray"@,
                    "/f"@,
                ],
            )
            &&& s[n - 3] == WinView::RunLenient(
                seq![
                    "reg"@,
                    "delete"@,
                    "HKLM\\SOFTWARE\\Khronos\\Vulkan\\ImplicitLayers"@,
                    "/v"@,
                    app + "\\vklayer\\pf_vkhdr_layer.json"@,
                    "/f"@,
                ],
            )
            &&& s[n - 1] == WinView::Note(
                Level::Good,
                "kept on purpose: %ProgramData%\\punktfunk (identity, passwords, update cache) and any VB-CABLE install"@,
            )
        }),
{
    let app = uninstall_dir(*facts, *c);
    let exe = app + "\\punktfunk-host.exe"@;
    let s = uninstall_steps_of(app, key@);
    assert(p@[0].steps == s);
    let n = s.len() as int;
    assert(s[1]->RunLenient_0 =~= seq![app + "\\punktfunk-tray.exe"@, "--quit"@]);
    assert(s[3]->RunLenient_0 =~= seq![exe, "driver"@, "uninstall"@]);
    assert(s[4]->RunLenient_0 =~= seq![exe, "driver"@, "uninstall"@, "--gamepad"@]);
    assert(s[5]->RunLenient_0 =~= seq![exe, "driver"@, "uninstall"@, "--audio"@]);
    assert(s[n - 5]->RunLenient_0 =~= seq![
        "reg"@,
        "delete"@,
        RUN_KEY@,
        "/v"@,
        "PunktfunkTray"@,
        "/f"@,
    ]);
    assert(s[n - 4]->RunLenient_0 =~= seq!["reg"@, "delete"@, AUMID_KEY@, "/f"@]);
    assert(s[n - 3]->RunLenient_0 =~= seq![
        "reg"@,
        "delete"@,
        LAYERS_KEY@,
        "/v"@,
        app + "\\vklayer\\pf_vkhdr_layer.json"@,
        "/f"@,
    ]);
}

/// A stream link opens the client: the scheme is the user's own and hands its link to the program
/// that was laid down.
pub proof fn a_stream_link_opens_the_client(
    cat: &Catalogue,
    facts: &WinFacts,
    c: &WinChoices,
    key: &str,
    p: WinPlan,
)
    requires
        call_ensures(build, (cat, facts, c, Artifact::Client, false, key), p),
    ensures
        ({
            let app = text::trim_back(
                if c.dir is Some {
                    c.dir->0@
                } else {
                    "%LocalAppData%\\Programs\\Punktfunk"@
                },
                Sep::Is('\\'),
            );
            let s = p@[2].steps;
            &&& p@.len() == 6
            &&& s.len() == 5
            &&& s[3] is Run
            &&& s[3]->Run_0.contains(
                "\""@ + app + "\\punktfunk-client.exe"@ + "\" \"%1\""@,
            )
            &&& s[3]->Run_0.contains(
                "HKCU\\Software\\Classes\\punktfunk"@ + "\\shell\\open\\command"@,
            )
            &&& s[0]->Run_0.contains("HKCU\\Software\\Classes\\punktfunk"@)
        }),
{
    let app = dir_of(*c, Artifact::Client);
    let exe = app + "\\punktfunk-client.exe"@;
    let s = client_registry(app);
    assert(p@[2].steps == s);
    let w = s[3]->Run_0;
    let last = "\""@ + exe + "\" \"%1\""@;
    assert(last =~= "\""@ + app + "\\punktfunk-client.exe"@ + "\" \"%1\""@);
    lemma_proto_words(PROTO_KEY@ + "\\shell\\open\\command"@, last);
    lemma_proto_words(PROTO_KEY@, "URL:Punktfunk stream link"@);
}

proof fn lemma_proto_words(key: Seq<char>, value: Seq<char>)
    ensures
        proto_of(key, value) is Run,
        proto_of(key, value)->Run_0.contains(key),
        proto_of(key, value)->Run_0.contains(value),
{
    let w = proto_of(key, value)->Run_0;
    assert(w[2] == key);
    assert(w.contains(w[2]));
    assert(w[w.len() - 2] == value);
    assert(w.contains(w[w.len() - 2]));
}

} // verus!
