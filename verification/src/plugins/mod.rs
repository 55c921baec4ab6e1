//! The `plugins` command: what its arguments ask for, and what is said of the runner.
//!
//! Package work goes to the runner's own program; the service is switched by the platform. Both
//! stay with the caller.

pub mod manifest;
pub mod paths;

use crate::text;
use vstd::prelude::*;
use vstd::string::StringExecFns;

verus! {

/// What the first argument asks for.
#[derive(Clone, Copy, Debug, PartialEq, Eq, Structural)]
pub enum PluginCommand {
    /// Forward to the runner; a listing changes nothing and needs no elevation.
    Package { listing: bool },
    Enable,
    Disable,
    Status,
    Grant,
    Help,
    Unknown,
}

/// The command of a word; help without one.
pub open spec fn command_of(word: Option<Seq<char>>) -> PluginCommand {
    match word {
        None => PluginCommand::Help,
        Some(w) => if w == "list"@ || w == "ls"@ {
            PluginCommand::Package { listing: true }
        } else if w == "add"@ || w == "remove"@ || w == "rm"@ || w == "uninstall"@ {
            PluginCommand::Package { listing: false }
        } else if w == "enable"@ {
            PluginCommand::Enable
        } else if w == "disable"@ {
            PluginCommand::Disable
        } else if w == "status"@ {
            PluginCommand::Status
        } else if w == "grant"@ {
            PluginCommand::Grant
        } else if w == "-h"@ || w == "--help"@ || w == "help"@ {
            PluginCommand::Help
        } else {
            PluginCommand::Unknown
        },
    }
}

/// The first of some words.
pub open spec fn first_of(args: Seq<Seq<char>>) -> Option<Seq<char>> {
    if args.len() == 0 {
        None
    } else {
        Some(args[0])
    }
}

/// What the arguments ask for.
pub fn plugin_command(args: &Vec<String>) -> (c: PluginCommand)
    ensures
        c == command_of(first_of(text::contents(args@))),
{
    if args.len() == 0 {
        return PluginCommand::Help;
    }
    assert(text::contents(args@)[0] == args@[0]@);
    let w: &str = args[0].as_str();
    if text::same(w, "list") || text::same(w, "ls") {
        PluginCommand::Package { listing: true }
    } else if text::same(w, "add") || text::same(w, "remove") || text::same(w, "rm") || text::same(
        w,
        "uninstall",
    ) {
        PluginCommand::Package { listing: false }
    } else if text::same(w, "enable") {
        PluginCommand::Enable
    } else if text::same(w, "disable") {
        PluginCommand::Disable
    } else if text::same(w, "status") {
        PluginCommand::Status
    } else if text::same(w, "grant") {
        PluginCommand::Grant
    } else if text::same(w, "-h") || text::same(w, "--help") || text::same(w, "help") {
        PluginCommand::Help
    } else {
        PluginCommand::Unknown
    }
}

/// What an action is called when it needs elevation; nothing when it does not.
pub open spec fn elevation_of(c: PluginCommand) -> Option<Seq<char>> {
    match c {
        PluginCommand::Package { listing: false } => Some("installing or removing plugins"@),
        PluginCommand::Enable => Some("enabling the plugin runner"@),
        PluginCommand::Disable => Some("disabling the plugin runner"@),
        _ => None,
    }
}

pub fn elevation_for(c: PluginCommand) -> (what: Option<&'static str>)
    ensures
        text::opt_view(what) == elevation_of(c),
{
    match c {
        PluginCommand::Package { listing } => if listing {
            None
        } else {
            Some("installing or removing plugins")
        },
        PluginCommand::Enable => Some("enabling the plugin runner"),
        PluginCommand::Disable => Some("disabling the plugin runner"),
        _ => None,
    }
}

/// The refusal of an unknown command.
pub fn unknown_command(word: &str) -> (s: String)
    ensures
        s@ == "unknown plugins command '"@ + word@ + "' (try `plugins --help`)"@,
{
    "unknown plugins command '".to_owned().concat(word).concat("' (try `plugins --help`)")
}

/// The first place of a word at or after `k`; the length when there is none.
pub open spec fn place_of(args: Seq<Seq<char>>, word: Seq<char>, k: int) -> int
    decreases args.len() - k,
{
    if k >= args.len() {
        args.len() as int
    } else if args[k] == word {
        k
    } else {
        place_of(args, word, k + 1)
    }
}

/// The plugins directory an `add` is told to use: the word after the first `--plugins`.
pub fn plugins_dir_arg(args: &Vec<String>) -> (dir: Option<String>)
    ensures
        text::opt_string(dir) == ({
            let a = text::contents(args@);
            let i = place_of(a, "--plugins"@, 0);
            if i + 1 < a.len() {
                Some(a[i + 1])
            } else {
                None
            }
        }),
{
    let ghost a = text::contents(args@);
    let mut i: usize = 0;
    while i < args.len()
        invariant
            i <= args@.len(),
            a == text::contents(args@),
            place_of(a, "--plugins"@, 0) == place_of(a, "--plugins"@, i as int),
        decreases args@.len() - i,
    {
        assert(a[i as int] == args@[i as int]@);
        if text::same(args[i].as_str(), "--plugins") {
            if i < args.len() - 1 {
                assert(a[i + 1] == args@[i + 1]@);
                return Some(args[i + 1].clone());
            }
            return None;
        }
        i = i + 1;
    }
    None
}

/// The runner's state.
pub struct RuntimeStatus {
    pub installed: bool,
    pub enabled: bool,
    pub running: bool,
    pub unit: String,
    pub principal: Option<String>,
    pub detail: String,
}

/// The word for the runner's state.
pub open spec fn state_word(st: RuntimeStatus) -> Seq<char> {
    if !st.installed {
        "not installed"@
    } else if st.running {
        "running"@
    } else {
        "stopped"@
    }
}

pub open spec fn bool_word(b: bool) -> Seq<char> {
    if b {
        "true"@
    } else {
        "false"@
    }
}

/// The status report: unit, state and enablement; the principal when it is known; then how to
/// start a stopped runner, or what is said of a missing one.
pub open spec fn status_text_of(st: RuntimeStatus) -> Seq<char> {
    "runner:  "@ + st.unit@ + "\nstate:   "@ + state_word(st) + "\nenabled: "@ + bool_word(
        st.enabled,
    ) + "\n"@ + (match st.principal {
        Some(p) => "runs as: "@ + p@ + "\n"@,
        None => ""@,
    }) + (if st.installed && !st.running {
        "\nStart it with: punktfunk-host plugins enable\n"@
    } else if !st.installed {
        "\n"@ + st.detail@ + "\n"@
    } else {
        ""@
    })
}

/// Writes the status report.
pub fn status_text(st: &RuntimeStatus) -> (s: String)
    ensures
        s@ == status_text_of(*st),
{
    let state: &str = if !st.installed {
        "not installed"
    } else if st.running {
        "running"
    } else {
        "stopped"
    };
    let enabled: &str = if st.enabled {
        "true"
    } else {
        "false"
    };
    let head: String = "runner:  ".to_owned().concat(st.unit.as_str()).concat(
        "\nstate:   ",
    ).concat(state).concat("\nenabled: ").concat(enabled).concat("\n");
    let principal: String = match &st.principal {
        Some(p) => "runs as: ".to_owned().concat(p.as_str()).concat("\n"),
        None => "".to_owned(),
    };
    let tail: String = if st.installed && !st.running {
        "\nStart it with: punktfunk-host plugins enable\n".to_owned()
    } else if !st.installed {
        "\n".to_owned().concat(st.detail.as_str()).concat("\n")
    } else {
        "".to_owned()
    };
    head.concat(principal.as_str()).concat(tail.as_str())
}

/// Whether a change has to be followed by a restart of the runner: it finds its plugins at its
/// start. One that is off stays off; an enabled one that is not running is started.
pub fn restart_wanted(st: &RuntimeStatus) -> (r: bool)
    ensures
        r == (st.installed && st.enabled),
{
    st.installed && st.enabled
}

/// A command is one of its words and nothing else: `list` and `ls` list, `add`, `remove`, `rm` and
/// `uninstall` change packages, and help is what no word asks for.
pub proof fn a_command_is_one_of_its_words(args: &Vec<String>, c: PluginCommand)
    requires
        call_ensures(plugin_command, (args,), c),
        args@.len() > 0,
    ensures
        ({
            let w = args@[0]@;
            &&& c == (PluginCommand::Package { listing: true }) <==> w == "list"@ || w == "ls"@
            &&& c == (PluginCommand::Package { listing: false }) <==> w == "add"@ || w == "remove"@
                || w == "rm"@ || w == "uninstall"@
            &&& c == PluginCommand::Enable <==> w == "enable"@
            &&& c == PluginCommand::Disable <==> w == "disable"@
            &&& c == PluginCommand::Status <==> w == "status"@
            &&& c == PluginCommand::Grant <==> w == "grant"@
            &&& c == PluginCommand::Help <==> w == "help"@ || w == "--help"@ || w == "-h"@
        }),
{
    assert(text::contents(args@)[0] == args@[0]@);
    lemma_words_apart();
}

proof fn lemma_words_apart()
    ensures
        "list"@.len() == 4 && "ls"@.len() == 2 && "add"@.len() == 3 && "remove"@.len() == 6,
        "rm"@.len() == 2 && "uninstall"@.len() == 9 && "enable"@.len() == 6,
        "disable"@.len() == 7 && "status"@.len() == 6 && "grant"@.len() == 5 && "help"@.len() == 4,
        "--help"@.len() == 6 && "-h"@.len() == 2,
        "list"@[0] == 'l' && "help"@[0] == 'h' && "ls"@[0] == 'l' && "rm"@[0] == 'r',
        "-h"@[0] == '-' && "remove"@[0] == 'r' && "enable"@[0] == 'e' && "status"@[0] == 's',
        "--help"@[0] == '-',
{
    reveal_strlit("list");
    reveal_strlit("ls");
    reveal_strlit("add");
    reveal_strlit("remove");
    reveal_strlit("rm");
    reveal_strlit("uninstall");
    reveal_strlit("enable");
    reveal_strlit("disable");
    reveal_strlit("status");
    reveal_strlit("grant");
    reveal_strlit("help");
    reveal_strlit("--help");
    reveal_strlit("-h");
}

/// Whatever changes packages or switches the runner needs elevation; looking, asking and a grant
/// do not. No words ask for help.
pub proof fn a_change_needs_elevation(
    c: PluginCommand,
    what: Option<&'static str>,
    none: &Vec<String>,
    help: PluginCommand,
)
    requires
        call_ensures(elevation_for, (c,), what),
        none@.len() == 0,
        call_ensures(plugin_command, (none,), help),
    ensures
        what is Some <==> c == (PluginCommand::Package { listing: false }) || c
            == PluginCommand::Enable || c == PluginCommand::Disable,
        help == PluginCommand::Help,
{
}

/// The directory is the word behind `--plugins`, where there is one; without that word there is
/// none.
pub proof fn the_directory_follows_its_word(args: &Vec<String>, dir: Option<String>, i: int)
    requires
        call_ensures(plugins_dir_arg, (args,), dir),
        0 <= i < args@.len(),
        args@[i]@ == "--plugins"@,
        forall|k: int| 0 <= k < i ==> (#[trigger] args@[k])@ != "--plugins"@,
    ensures
        i + 1 < args@.len() ==> dir is Some && dir->0@ == args@[i + 1]@,
        i + 1 == args@.len() ==> dir is None,
{
    let a = text::contents(args@);
    assert(a.len() == args@.len());
    assert(a[i] == args@[i]@);
    assert forall|k: int| 0 <= k < i implies #[trigger] a[k] != "--plugins"@ by {
        assert(a[k] == args@[k]@);
    }
    lemma_place(a, "--plugins"@, 0, i);
    if i + 1 < args@.len() {
        assert(a[i + 1] == args@[i + 1]@);
    }
}

proof fn lemma_place(a: Seq<Seq<char>>, word: Seq<char>, k: int, i: int)
    requires
        0 <= k <= i < a.len(),
        a[i] == word,
        forall|j: int| k <= j < i ==> #[trigger] a[j] != word,
    ensures
        place_of(a, word, k) == i,
    decreases i - k,
{
    if k < i {
        lemma_place(a, word, k + 1, i);
    }
}

/// A runner is started again exactly where it is installed and on, and the report says so.
pub proof fn an_enabled_runner_is_restarted(st: &RuntimeStatus, r: bool)
    requires
        call_ensures(restart_wanted, (st,), r),
    ensures
        r ==> st.installed && st.enabled,
        st.installed && st.enabled ==> r,
{
}

/// A report begins with its unit and says whether it runs and is on; a stopped runner is told how
/// to start, a missing one what is missing, and a running one nothing more.
pub proof fn a_report_says_how_it_stands(st: &RuntimeStatus, s: String)
    requires
        call_ensures(status_text, (st,), s),
    ensures
        text::begins(s@, "runner:  "@ + st.unit@ + "\nstate:   "@),
        st.installed && st.running && st.principal is None ==> s@ == "runner:  "@ + st.unit@
            + "\nstate:   running\nenabled: "@ + (if st.enabled {
            "true\n"@
        } else {
            "false\n"@
        }),
        st.installed && !st.running ==> text::ends(
            s@,
            "\nStart it with: punktfunk-host plugins enable\n"@,
        ),
        !st.installed ==> text::ends(s@, "\n"@ + st.detail@ + "\n"@),
{
    let head = "runner:  "@ + st.unit@ + "\nstate:   "@;
    let rest = state_word(*st) + "\nenabled: "@ + bool_word(st.enabled) + "\n"@ + (
    match st.principal {
        Some(p) => "runs as: "@ + p@ + "\n"@,
        None => ""@,
    });
    let tail = if st.installed && !st.running {
        "\nStart it with: punktfunk-host plugins enable\n"@
    } else if !st.installed {
        "\n"@ + st.detail@ + "\n"@
    } else {
        ""@
    };
    assert(s@ =~= head + rest + tail);
    assert(s@.take(head.len() as int) =~= head);
    assert(s@.skip(s@.len() - tail.len()) =~= tail);
    if st.installed && st.running && st.principal is None {
        reveal_strlit("");
        reveal_strlit("true");
        reveal_strlit("false");
        reveal_strlit("true\n");
        reveal_strlit("false\n");
        reveal_strlit("\n");
        reveal_strlit("running");
        reveal_strlit("\nenabled: ");
        reveal_strlit("\nstate:   ");
        reveal_strlit("\nstate:   running\nenabled: ");
        assert("true\n"@ =~= "true"@ + "\n"@);
        assert("false\n"@ =~= "false"@ + "\n"@);
        assert("\nstate:   running\nenabled: "@ =~= "\nstate:   "@ + "running"@ + "\nenabled: "@);
        assert(s@ =~= "runner:  "@ + st.unit@ + "\nstate:   running\nenabled: "@ + (if st.enabled {
            "true\n"@
        } else {
            "false\n"@
        }));
    }
}

/// An unknown command is refused by its word.
pub proof fn an_unknown_command_is_named(word: &str, s: String)
    requires
        call_ensures(unknown_command, (word,), s),
    ensures
        s@ == "unknown plugins command '"@ + word@ + "' (try `plugins --help`)"@,
{
}

} // verus!
