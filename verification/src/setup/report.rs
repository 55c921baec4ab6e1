//! The text around a plan: banner, choices, the check and what comes next.
//!
//! The console's address is never given as a fact where the console is not on the box, and a
//! driver that cannot encode is warned of though the install succeeded.

use crate::setup::choices::{Action, Choices, LAN_BIND, LOOPBACK_BIND};
use crate::setup::exec::{Opts, Outcome};
use crate::setup::facts::{Facts, Nvidia, DOCS};
use crate::setup::ui;
use crate::setup::ui::{silence, tell, tell_line, Told};
use crate::text;
use vstd::prelude::*;
use vstd::string::StringExecFns;

verus! {

/// The command that prints the password. It prints until the first sign-in; the console then
/// keeps a hash, and a forgotten password is reset, not read.
pub const PASSWORD_READ: &'static str =
    "sed -n 's/^PUNKTFUNK_UI_PASSWORD=//p' ~/.config/punktfunk/web-password";

/// The banner.
pub fn banner() -> (v: Vec<Told>)
    ensures
        ui::told_views(v@) == Seq::<ui::ToldView>::empty().push(ui::ToldView::Blank).push(
            ui::ToldView::Line("  punktfunk guided host installer — PREVIEW"@),
        ).push(
            ui::ToldView::Line(
                "  The per-distro pages stay the documented path; this automates them. Docs: "@
                    + DOCS@ + "/install"@,
            ),
        ).push(
            ui::ToldView::Line("  Re-running is safe. Ctrl-C stops between steps."@),
        ).push(ui::ToldView::Blank),
{
    let mut v: Vec<Told> = silence();
    tell(&mut v, Told::Blank);
    tell_line(&mut v, "  punktfunk guided host installer — PREVIEW");
    let docs: String =
        "  The per-distro pages stay the documented path; this automates them. Docs: ".to_owned().concat(
        DOCS,
    ).concat("/install");
    tell_line(&mut v, docs.as_str());
    tell_line(&mut v, "  Re-running is safe. Ctrl-C stops between steps.");
    tell(&mut v, Told::Blank);
    v
}

/// What was found.
pub fn detected(facts: &Facts) -> (t: Told)
    ensures
        t@ == ui::ToldView::Say(
            "Detected "@ + facts.os.pretty@ + " → "@ + facts.family.name() + " (guide: "@
                + facts.docs_page@ + ")"@,
        ),
{
    Told::Say(
        "Detected ".to_owned().concat(facts.os.pretty.as_str()).concat(" → ").concat(
            facts.family.as_str(),
        ).concat(" (guide: ").concat(facts.docs_page.as_str()).concat(")"),
    )
}

pub open spec fn yes_no(on: bool) -> Seq<char> {
    if on {
        "yes"@
    } else {
        "no"@
    }
}

/// A row of the summary; why it is so is told only of what is on.
pub open spec fn row_of(label: Seq<char>, on: bool, why: Option<Seq<char>>) -> ui::ToldView {
    match why {
        Some(w) if on => ui::ToldView::Line(
            "  "@ + label + ": "@ + yes_no(on) + "  ("@ + w + ")"@,
        ),
        _ => ui::ToldView::Line("  "@ + label + ": "@ + yes_no(on)),
    }
}

fn row(label: &str, on: bool, why: &Option<String>) -> (t: Told)
    ensures
        t@ == row_of(label@, on, text::opt_string(*why)),
{
    let value: &str = if on {
        "yes"
    } else {
        "no"
    };
    let head: String = "  ".to_owned().concat(label).concat(": ").concat(value);
    match why {
        Some(w) => if on {
            Told::Line(head.concat("  (").concat(w.as_str()).concat(")"))
        } else {
            Told::Line(head)
        },
        None => Told::Line(head),
    }
}

/// Where the console can be reached from, in the words of the question.
pub open spec fn bind_label_of(bind: Seq<char>) -> Seq<char> {
    if bind == LOOPBACK_BIND@ {
        "this machine only"@
    } else if bind == LAN_BIND@ {
        "this local network"@
    } else {
        bind
    }
}

fn bind_label(bind: &str) -> (s: String)
    ensures
        s@ == bind_label_of(bind@),
{
    if text::same(bind, LOOPBACK_BIND) {
        "this machine only".to_owned()
    } else if text::same(bind, LAN_BIND) {
        "this local network".to_owned()
    } else {
        bind.to_owned()
    }
}

/// The choices before anything runs. A client has no host rows, and an uninstall none at all.
pub open spec fn summary_of(choices: Choices) -> Seq<ui::ToldView> {
    let none = Seq::<ui::ToldView>::empty();
    let said = none.push(ui::ToldView::Say("Choices (nothing below has run yet)"@));
    if choices.action == Action::Uninstall {
        none
    } else if !choices.components.host {
        said.push(ui::ToldView::Line("  Channel: "@ + choices.channel.name()))
    } else {
        said.push(
            row_of(
                "Full controller (joins the punktfunk group — grants usbip attach)"@,
                choices.toggles.punktfunk_group,
                text::opt_string(choices.group_why),
            ),
        ).push(row_of("Third-party clients (Moonlight, Artemis)"@, choices.toggles.gamestream, None)).push(
            row_of("Shared clipboard"@, choices.toggles.clipboard, None),
        ).push(
            row_of(
                "Start at boot with nobody logged in"@,
                choices.toggles.linger,
                text::opt_string(choices.linger_why),
            ),
        ).push(
            ui::ToldView::Line(
                "  Web console reachable from: "@ + bind_label_of(choices.web_bind@),
            ),
        )
    }
}

/// The choices before anything runs.
pub fn choices_summary(choices: &Choices) -> (v: Vec<Told>)
    ensures
        ui::told_views(v@) == summary_of(*choices),
{
    let mut v: Vec<Told> = silence();
    if choices.action == Action::Uninstall {
        return v;
    }
    tell(&mut v, Told::Say("Choices (nothing below has run yet)".to_owned()));
    if !choices.components.host {
        let channel: String = "  Channel: ".to_owned().concat(choices.channel.as_str());
        tell(&mut v, Told::Line(channel));
        return v;
    }
    let none: Option<String> = None;
    tell(
        &mut v,
        row(
            "Full controller (joins the punktfunk group — grants usbip attach)",
            choices.toggles.punktfunk_group,
            &choices.group_why,
        ),
    );
    tell(&mut v, row("Third-party clients (Moonlight, Artemis)", choices.toggles.gamestream, &none));
    tell(&mut v, row("Shared clipboard", choices.toggles.clipboard, &none));
    tell(
        &mut v,
        row("Start at boot with nobody logged in", choices.toggles.linger, &choices.linger_why),
    );
    let bind: String = "  Web console reachable from: ".to_owned().concat(
        bind_label(choices.web_bind.as_str()).as_str(),
    );
    tell(&mut v, Told::Line(bind));
    v
}

/// What an uninstall leaves behind, so a later install picks it up.
pub fn uninstall_outro() -> (v: Vec<Told>)
    ensures
        ui::told_views(v@) == Seq::<ui::ToldView>::empty().push(ui::ToldView::Blank).push(
            ui::ToldView::Line(
                "  Removed. Left on purpose: ~/.config/punktfunk (identity, pairings, host.env, plugins — a reinstall"@,
            ),
        ).push(
            ui::ToldView::Line(
                "  picks them up), the punktfunk / punktfunk-update groups, and any firewall rules you opened."@,
            ),
        ).push(
            ui::ToldView::Line(
                "  The one-command cleanups for each are on "@ + DOCS@ + "/uninstall#linux-hosts"@,
            ),
        ),
{
    let mut v: Vec<Told> = silence();
    tell(&mut v, Told::Blank);
    tell_line(
        &mut v,
        "  Removed. Left on purpose: ~/.config/punktfunk (identity, pairings, host.env, plugins — a reinstall",
    );
    tell_line(
        &mut v,
        "  picks them up), the punktfunk / punktfunk-update groups, and any firewall rules you opened.",
    );
    let docs: String = "  The one-command cleanups for each are on ".to_owned().concat(
        DOCS,
    ).concat("/uninstall#linux-hosts");
    tell(&mut v, Told::Line(docs));
    v
}

/// What a look at the box after the run found.
pub struct Checked {
    pub host_active: bool,
    /// The sockets it listens on, when they could be listed.
    pub sockets: Option<String>,
    pub has_web_server: bool,
}

/// The host answers on its port.
pub open spec fn listens(sockets: Option<Seq<char>>) -> bool {
    sockets matches Some(s) && text::holds(s, ":9777 "@)
}

/// What is said of a host that was started.
pub open spec fn health_of(c: Checked) -> Seq<ui::ToldView> {
    Seq::<ui::ToldView>::empty().push(
        if c.host_active {
            ui::ToldView::Fine("punktfunk-host is running"@)
        } else {
            ui::ToldView::Warn(
                "punktfunk-host is not active — journalctl --user -u punktfunk-host -e ("@ + DOCS@
                    + "/troubleshooting#the-linux-host-service-wont-start)"@,
            )
        },
    ).push(
        if listens(text::opt_string(c.sockets)) {
            ui::ToldView::Fine("listening on UDP 9777 (punktfunk/1)"@)
        } else {
            ui::ToldView::Warn(
                "nothing on UDP 9777 yet — give it a second, then: journalctl --user -u punktfunk-host -e"@,
            )
        },
    )
}

/// The driver failures that are silent and still block a stream.
pub open spec fn nvidia_of(facts: Facts) -> Seq<ui::ToldView> {
    match facts.nvidia {
        Nvidia::Absent => Seq::empty(),
        Nvidia::Works => Seq::empty(),
        Nvidia::NoDriver => Seq::<ui::ToldView>::empty().push(
            ui::ToldView::Warn(
                "NVIDIA GPU without the NVIDIA driver — nothing can encode until it's installed: step 1 of "@
                    + facts.docs_page@,
            ),
        ),
        Nvidia::ModuleNotLoaded => Seq::<ui::ToldView>::empty().push(
            ui::ToldView::Warn(
                "NVIDIA GPU, but nvidia-smi can't talk to the driver — the kernel module didn't load (Secure Boot? run: mokutil --sb-state): "@
                    + DOCS@ + "/troubleshooting#nvidia-smi-says-it-cant-communicate-with-the-driver"@,
            ),
        ),
    }
}

/// The address the console answers at: a console of this machine alone is not at its address on
/// the network.
pub open spec fn console_of(facts: Facts, choices: Choices) -> Seq<char> {
    let ip = match facts.ip {
        Some(ip) => ip@,
        None => "<host-ip>"@,
    };
    if choices.web_bind@ == LOOPBACK_BIND@ {
        "https://127.0.0.1:47992  (this machine only — PUNKTFUNK_UI_BIND in host.env opens it up)"@
    } else if choices.web_bind@ == LAN_BIND@ {
        "https://"@ + ip + ":47992  (its certificate is this host's own)"@
    } else {
        "https://"@ + choices.web_bind@ + ":47992  (its certificate is this host's own)"@
    }
}

/// What comes next on a box that serves nothing.
pub open spec fn client_next() -> Seq<ui::ToldView> {
    Seq::<ui::ToldView>::empty().push(ui::ToldView::Blank).push(
        ui::ToldView::Line("  Done. Next: let a device in."@),
    ).push(
        ui::ToldView::Line(
            "  Open punktfunk here and pick the PC you stream from — then approve this device in that host's console."@,
        ),
    ).push(
        ui::ToldView::Line("  "@ + DOCS@ + "/install-client · "@ + DOCS@ + "/pairing"@),
    ).push(ui::ToldView::Blank)
}

/// What comes next on a host. The console is spoken of only where it is, or in a dry run.
pub open spec fn host_next(
    facts: Facts,
    choices: Choices,
    outcome: Outcome,
    web: bool,
) -> Seq<ui::ToldView> {
    let done = Seq::<ui::ToldView>::empty().push(ui::ToldView::Blank).push(
        ui::ToldView::Line("  Done. Next: let a device in."@),
    );
    let console = if web {
        done.push(
            ui::ToldView::Line(
                "  On the device you play on, open punktfunk and pick this host. Approve it in the notification here, or in the console."@,
            ),
        ).push(ui::ToldView::Line("  Console: "@ + console_of(facts, choices))).push(
            ui::ToldView::Line(
                if choices.web_password is Some {
                    "  Password: the one you typed"@
                } else {
                    "  Password — this prints it, until you first sign in: "@ + PASSWORD_READ@
                },
            ),
        )
    } else {
        done.push(
            ui::ToldView::Line(
                "  The web console is NOT on this box, and pairing and every setting live there."@,
            ),
        ).push(ui::ToldView::Line("  Install line for your distro: "@ + facts.docs_page@))
    };
    let relogin = ui::and_if(
        console,
        outcome.relogin,
        ui::ToldView::Line(
            "  Group changes apply after you log out and back in (controllers won't work until then)."@,
        ),
    );
    let beside = ui::and_if(
        relogin,
        choices.move_mgmt_port || facts.sunshine_active,
        ui::ToldView::Line(
            "  Running next to Sunshine/Apollo: "@ + DOCS@ + "/switching-from-sunshine"@,
        ),
    );
    beside.push(
        ui::ToldView::Line("  "@ + DOCS@ + "/troubleshooting · "@ + facts.docs_page@),
    ).push(ui::ToldView::Blank)
}

/// Everything said after a run. What was checked counts only where the host was started and the
/// run was real.
pub open spec fn verify_of(
    facts: Facts,
    choices: Choices,
    outcome: Outcome,
    opts: Opts,
    c: Checked,
) -> Seq<ui::ToldView> {
    let checking = Seq::<ui::ToldView>::empty().push(ui::ToldView::Say("Checking"@));
    let health = if outcome.started && !opts.dry {
        checking + health_of(c)
    } else {
        checking
    };
    health + nvidia_of(facts) + (if choices.components.host {
        host_next(facts, choices, outcome, c.has_web_server || opts.dry)
    } else {
        client_next()
    })
}

fn more(v: &mut Vec<Told>, added: Vec<Told>)
    ensures
        ui::told_views(final(v)@) == ui::told_views(old(v)@) + ui::told_views(added@),
{
    let ghost before = v@;
    let ghost tail = added@;
    let mut added: Vec<Told> = added;
    v.append(&mut added);
    assert(ui::told_views(v@) =~= ui::told_views(before) + ui::told_views(tail));
}

fn health(c: &Checked) -> (v: Vec<Told>)
    ensures
        ui::told_views(v@) == health_of(*c),
{
    let mut v: Vec<Told> = silence();
    if c.host_active {
        tell(&mut v, Told::Fine("punktfunk-host is running".to_owned()));
    } else {
        tell(
            &mut v,
            Told::Warn(
                "punktfunk-host is not active — journalctl --user -u punktfunk-host -e (".to_owned().concat(
                    DOCS,
                ).concat("/troubleshooting#the-linux-host-service-wont-start)"),
            ),
        );
    }
    let listening: bool = match &c.sockets {
        Some(s) => text::contains(s.as_str(), ":9777 "),
        None => false,
    };
    if listening {
        tell(&mut v, Told::Fine("listening on UDP 9777 (punktfunk/1)".to_owned()));
    } else {
        tell(
            &mut v,
            Told::Warn(
                "nothing on UDP 9777 yet — give it a second, then: journalctl --user -u punktfunk-host -e".to_owned(),
            ),
        );
    }
    v
}

fn nvidia_warnings(facts: &Facts) -> (v: Vec<Told>)
    ensures
        ui::told_views(v@) == nvidia_of(*facts),
{
    let mut v: Vec<Told> = silence();
    match facts.nvidia {
        Nvidia::Absent => {},
        Nvidia::Works => {},
        Nvidia::NoDriver => {
            tell(
                &mut v,
                Told::Warn(
                    "NVIDIA GPU without the NVIDIA driver — nothing can encode until it's installed: step 1 of ".to_owned().concat(
                        facts.docs_page.as_str(),
                    ),
                ),
            );
        },
        Nvidia::ModuleNotLoaded => {
            tell(
                &mut v,
                Told::Warn(
                    "NVIDIA GPU, but nvidia-smi can't talk to the driver — the kernel module didn't load (Secure Boot? run: mokutil --sb-state): ".to_owned().concat(
                        DOCS,
                    ).concat("/troubleshooting#nvidia-smi-says-it-cant-communicate-with-the-driver"),
                ),
            );
        },
    }
    v
}

fn console_url(facts: &Facts, choices: &Choices) -> (s: String)
    ensures
        s@ == console_of(*facts, *choices),
{
    let bind: &str = choices.web_bind.as_str();
    if text::same(bind, LOOPBACK_BIND) {
        "https://127.0.0.1:47992  (this machine only — PUNKTFUNK_UI_BIND in host.env opens it up)".to_owned()
    } else if text::same(bind, LAN_BIND) {
        let ip: &str = match &facts.ip {
            Some(ip) => ip.as_str(),
            None => "<host-ip>",
        };
        "https://".to_owned().concat(ip).concat(":47992  (its certificate is this host's own)")
    } else {
        "https://".to_owned().concat(bind).concat(":47992  (its certificate is this host's own)")
    }
}

fn next_steps(facts: &Facts, choices: &Choices, outcome: &Outcome, web: bool) -> (v: Vec<Told>)
    ensures
        ui::told_views(v@) == if choices.components.host {
            host_next(*facts, *choices, *outcome, web)
        } else {
            client_next()
        },
{
    let mut v: Vec<Told> = silence();
    tell(&mut v, Told::Blank);
    tell_line(&mut v, "  Done. Next: let a device in.");
    if !choices.components.host {
        tell_line(
            &mut v,
            "  Open punktfunk here and pick the PC you stream from — then approve this device in that host's console.",
        );
        let docs: String = "  ".to_owned().concat(DOCS).concat("/install-client · ").concat(
            DOCS,
        ).concat("/pairing");
        tell(&mut v, Told::Line(docs));
        tell(&mut v, Told::Blank);
        return v;
    }
    if web {
        tell_line(
            &mut v,
            "  On the device you play on, open punktfunk and pick this host. Approve it in the notification here, or in the console.",
        );
        let console: String = "  Console: ".to_owned().concat(console_url(facts, choices).as_str());
        tell(&mut v, Told::Line(console));
        if choices.web_password.is_some() {
            tell_line(&mut v, "  Password: the one you typed");
        } else {
            let password: String =
                "  Password — this prints it, until you first sign in: ".to_owned().concat(
                PASSWORD_READ,
            );
            tell(&mut v, Told::Line(password));
        }
    } else {
        tell_line(
            &mut v,
            "  The web console is NOT on this box, and pairing and every setting live there.",
        );
        let line: String = "  Install line for your distro: ".to_owned().concat(
            facts.docs_page.as_str(),
        );
        tell(&mut v, Told::Line(line));
    }
    if outcome.relogin {
        tell_line(
            &mut v,
            "  Group changes apply after you log out and back in (controllers won't work until then).",
        );
    }
    if choices.move_mgmt_port || facts.sunshine_active {
        let beside: String = "  Running next to Sunshine/Apollo: ".to_owned().concat(DOCS).concat(
            "/switching-from-sunshine",
        );
        tell(&mut v, Told::Line(beside));
    }
    let last: String = "  ".to_owned().concat(DOCS).concat("/troubleshooting · ").concat(
        facts.docs_page.as_str(),
    );
    tell(&mut v, Told::Line(last));
    tell(&mut v, Told::Blank);
    v
}

/// Everything said after a run.
pub fn verify(
    facts: &Facts,
    choices: &Choices,
    outcome: &Outcome,
    opts: Opts,
    checked: &Checked,
) -> (v: Vec<Told>)
    ensures
        ui::told_views(v@) == verify_of(*facts, *choices, *outcome, opts, *checked),
{
    let mut v: Vec<Told> = silence();
    tell(&mut v, Told::Say("Checking".to_owned()));
    if outcome.started && !opts.dry {
        more(&mut v, health(checked));
    }
    more(&mut v, nvidia_warnings(facts));
    more(&mut v, next_steps(facts, choices, outcome, checked.has_web_server || opts.dry));
    v
}

/// The console's address is never given as a fact where the console is not on the box: without it
/// no line of what comes next is the console's.
pub proof fn no_console_no_address(
    facts: Facts,
    choices: Choices,
    outcome: Outcome,
    i: int,
    line: Seq<char>,
)
    requires
        0 <= i < host_next(facts, choices, outcome, false).len(),
        host_next(facts, choices, outcome, false)[i] == ui::ToldView::Line(line),
    ensures
        !text::begins(line, "  Console: "@),
{
    reveal_strlit("  Console: ");
    reveal_strlit("  Done. Next: let a device in.");
    reveal_strlit(
        "  The web console is NOT on this box, and pairing and every setting live there.",
    );
    reveal_strlit("  Install line for your distro: ");
    reveal_strlit(
        "  Group changes apply after you log out and back in (controllers won't work until then).",
    );
    reveal_strlit("  Running next to Sunshine/Apollo: ");
    reveal_strlit("  ");
    reveal_strlit("https://docs.punktfunk.unom.io/docs");
    assert(line[2] != 'C');
    if text::begins(line, "  Console: "@) {
        assert(line.take("  Console: "@.len() as int)[2] == line[2]);
    }
}

/// A summary shows each choice as it is: nothing for an uninstall, the channel for a client, and
/// for a host a row for each switch and where the console can be reached.
pub proof fn a_summary_shows_the_choices(c: &Choices, v: Vec<Told>)
    requires
        call_ensures(choices_summary, (c,), v),
    ensures
        c.action == Action::Uninstall ==> v@.len() == 0,
        c.action == Action::Install ==> v@.len() > 0 && v@[0]@ == ui::ToldView::Say(
            "Choices (nothing below has run yet)"@,
        ),
        c.action == Action::Install && !c.components.host ==> v@.len() == 2 && v@[1]@
            == ui::ToldView::Line("  Channel: "@ + c.channel.name()),
        c.action == Action::Install && c.components.host ==> {
            &&& v@.len() == 6
            &&& c.toggles.punktfunk_group && c.group_why is None ==> v@[1]@ == ui::ToldView::Line(
                "  "@ + "Full controller (joins the punktfunk group — grants usbip attach)"@ + ": "@
                    + "yes"@,
            )
            &&& !c.toggles.punktfunk_group ==> v@[1]@ == ui::ToldView::Line(
                "  "@ + "Full controller (joins the punktfunk group — grants usbip attach)"@ + ": "@
                    + "no"@,
            )
            &&& v@[2]@ == ui::ToldView::Line(
                "  "@ + "Third-party clients (Moonlight, Artemis)"@ + ": "@ + (
                if c.toggles.gamestream {
                    "yes"@
                } else {
                    "no"@
                }),
            )
            &&& v@[3]@ == ui::ToldView::Line(
                "  "@ + "Shared clipboard"@ + ": "@ + (if c.toggles.clipboard {
                    "yes"@
                } else {
                    "no"@
                }),
            )
            &&& c.toggles.linger && c.linger_why is Some ==> v@[4]@ == ui::ToldView::Line(
                "  "@ + "Start at boot with nobody logged in"@ + ": "@ + "yes"@ + "  ("@
                    + c.linger_why->0@ + ")"@,
            )
            &&& !c.toggles.linger ==> v@[4]@ == ui::ToldView::Line(
                "  "@ + "Start at boot with nobody logged in"@ + ": "@ + "no"@,
            )
            &&& v@[5]@ == ui::ToldView::Line(
                "  Web console reachable from: "@ + (if c.web_bind@ == "127.0.0.1"@ {
                    "this machine only"@
                } else if c.web_bind@ == "0.0.0.0"@ {
                    "this local network"@
                } else {
                    c.web_bind@
                }),
            )
        },
{
    let t = ui::told_views(v@);
    assert(t.len() == v@.len());
    assert forall|i: int| 0 <= i < v@.len() implies t[i] == (#[trigger] v@[i])@ by {}
}

/// What was found is told with its family and its page.
pub proof fn what_was_found_is_told(f: &Facts, t: Told, name: &'static str, out: Vec<Told>)
    requires
        call_ensures(detected, (f,), t),
        call_ensures(crate::setup::facts::Family::as_str, (f.family,), name),
        call_ensures(uninstall_outro, (), out),
    ensures
        t@ == ui::ToldView::Say(
            "Detected "@ + f.os.pretty@ + " → "@ + name@ + " (guide: "@ + f.docs_page@ + ")"@,
        ),
        out@.len() == 4,
{
    assert(ui::told_views(out@).len() == out@.len());
}

/// After a run the truth is told: whether the host runs and listens where it was started in
/// earnest, and nothing of it otherwise; a driver that cannot encode is warned of.
pub proof fn a_check_tells_how_it_stands(
    facts: &Facts,
    c: &Choices,
    outcome: &Outcome,
    opts: Opts,
    checked: &Checked,
    v: Vec<Told>,
)
    requires
        call_ensures(verify, (facts, c, outcome, opts, checked), v),
    ensures
        outcome.started && !opts.dry && checked.host_active ==> v@[1]@ == ui::ToldView::Fine(
            "punktfunk-host is running"@,
        ),
        outcome.started && !opts.dry && !checked.host_active ==> v@[1] is Warn,
        outcome.started && !opts.dry ==> (v@[2]@ == ui::ToldView::Fine(
            "listening on UDP 9777 (punktfunk/1)"@,
        ) <==> checked.sockets is Some && text::holds(checked.sockets->0@, ":9777 "@)),
        outcome.started && !opts.dry ==> v@[2] is Fine || v@[2] is Warn,
        !outcome.started || opts.dry ==> v@.len() >= 2 && !(v@[1] is Fine),
        (!outcome.started || opts.dry) ==> (v@[1] is Warn <==> facts.nvidia == Nvidia::NoDriver
            || facts.nvidia == Nvidia::ModuleNotLoaded),
        outcome.started && !opts.dry ==> (v@[3] is Warn <==> facts.nvidia == Nvidia::NoDriver
            || facts.nvidia == Nvidia::ModuleNotLoaded),
        v@[0]@ == ui::ToldView::Say("Checking"@),
        v@.last() is Blank,
{
    let t = ui::told_views(v@);
    assert(t.len() == v@.len());
    assert forall|i: int| 0 <= i < v@.len() implies t[i] == (#[trigger] v@[i])@ by {}
    let next = if c.components.host {
        host_next(*facts, *c, *outcome, checked.has_web_server || opts.dry)
    } else {
        client_next()
    };
    assert(next.len() > 1 && next[0] is Blank && next.last() is Blank);
    assert(t.last() == next.last());
    assert(t.last() == v@.last()@);
    let h: int = if outcome.started && !opts.dry {
        3
    } else {
        1
    };
    let n = nvidia_of(*facts);
    assert(t[h] == if n.len() > 0 {
        n[0]
    } else {
        next[0]
    });
    assert(t[h] == v@[h]@);
    assert(t[1] == v@[1]@);
    if h == 3 {
        assert(t[2] == v@[2]@);
    }
}

/// The console is told of only where there is one, or in a dry run; its address is the one it
/// answers at, its password is never said, and a change of groups is told of where there was one.
pub proof fn the_console_is_told_of_where_it_is(
    facts: &Facts,
    c: &Choices,
    outcome: &Outcome,
    opts: Opts,
    checked: &Checked,
    v: Vec<Told>,
)
    requires
        call_ensures(verify, (facts, c, outcome, opts, checked), v),
        c.components.host,
        facts.nvidia == Nvidia::Works || facts.nvidia == Nvidia::Absent,
        opts.dry,
    ensures
        v@.len() >= 6,
        v@[4]@ == ui::ToldView::Line(
            "  Console: "@ + (if c.web_bind@ == "127.0.0.1"@ {
                "https://127.0.0.1:47992  (this machine only — PUNKTFUNK_UI_BIND in host.env opens it up)"@
            } else if c.web_bind@ == "0.0.0.0"@ {
                "https://"@ + (if facts.ip is Some {
                    facts.ip->0@
                } else {
                    "<host-ip>"@
                }) + ":47992  (its certificate is this host's own)"@
            } else {
                "https://"@ + c.web_bind@ + ":47992  (its certificate is this host's own)"@
            }),
        ),
        v@[5]@ == ui::ToldView::Line(
            if c.web_password is Some {
                "  Password: the one you typed"@
            } else {
                "  Password — this prints it, until you first sign in: "@
                    + "sed -n 's/^PUNKTFUNK_UI_PASSWORD=//p' ~/.config/punktfunk/web-password"@
            },
        ),
        v@.len() == 8 + (if outcome.relogin {
            1int
        } else {
            0
        }) + (if c.move_mgmt_port || facts.sunshine_active {
            1int
        } else {
            0
        }),
        outcome.relogin ==> v@[6]@ == ui::ToldView::Line(
            "  Group changes apply after you log out and back in (controllers won't work until then)."@,
        ),
{
    let t = ui::told_views(v@);
    assert(t.len() == v@.len());
    let next = host_next(*facts, *c, *outcome, true);
    let none = Seq::<ui::ToldView>::empty();
    let one = none.push(ui::ToldView::Say("Checking"@));
    assert(t =~= one + none + next);
    assert(t[4] == next[3] && t[5] == next[4]);
    assert(t[4] == v@[4]@ && t[5] == v@[5]@);
    if outcome.relogin {
        assert(t[6] == next[5]);
        assert(t[6] == v@[6]@);
    }
}

/// A box without the console is told so, whatever else it is told: its lines are those of the
/// page, and none is an address.
pub proof fn a_box_without_a_console_is_told_so(
    facts: &Facts,
    c: &Choices,
    outcome: &Outcome,
    opts: Opts,
    checked: &Checked,
    v: Vec<Told>,
    line: Seq<char>,
)
    requires
        call_ensures(verify, (facts, c, outcome, opts, checked), v),
        c.components.host,
        !checked.has_web_server,
        !opts.dry,
    ensures
        ui::says(
            v@,
            ui::ToldView::Line(
                "  The web console is NOT on this box, and pairing and every setting live there."@,
            ),
        ),
        ui::says(v@, ui::ToldView::Line(line)) ==> !text::begins(line, "  Console: "@),
{
    let x = ui::ToldView::Line(line);
    let told = ui::ToldView::Line(
        "  The web console is NOT on this box, and pairing and every setting live there."@,
    );
    ui::lemma_says(v@, x);
    ui::lemma_says(v@, told);
    let one = Seq::<ui::ToldView>::empty().push(ui::ToldView::Say("Checking"@));
    let health = if outcome.started {
        one + health_of(*checked)
    } else {
        one
    };
    let next = host_next(*facts, *c, *outcome, false);
    let front = health + nvidia_of(*facts);
    assert(ui::told_views(v@) == front + next);
    ui::lemma_says_both(front, next, x);
    ui::lemma_says_both(front, next, told);
    assert(next[2] == told);
    if front.contains(x) {
        let i = choose|i: int| 0 <= i < front.len() && front[i] == x;
        assert(!(front[i] is Line));
    }
    if next.contains(x) {
        let i = choose|i: int| 0 <= i < next.len() && next[i] == x;
        no_console_no_address(*facts, *c, *outcome, i, line);
    }
}

/// A client's box is told to pick a host, and nothing of a console of its own.
pub proof fn a_client_is_told_to_pick_a_host(
    facts: &Facts,
    c: &Choices,
    outcome: &Outcome,
    opts: Opts,
    checked: &Checked,
    v: Vec<Told>,
)
    requires
        call_ensures(verify, (facts, c, outcome, opts, checked), v),
        !c.components.host,
    ensures
        ui::says(
            v@,
            ui::ToldView::Line(
                "  Open punktfunk here and pick the PC you stream from — then approve this device in that host's console."@,
            ),
        ),
{
    let x = ui::ToldView::Line(
        "  Open punktfunk here and pick the PC you stream from — then approve this device in that host's console."@,
    );
    ui::lemma_says(v@, x);
    let one = Seq::<ui::ToldView>::empty().push(ui::ToldView::Say("Checking"@));
    let health = if outcome.started && !opts.dry {
        one + health_of(*checked)
    } else {
        one
    };
    let next = client_next();
    let front = health + nvidia_of(*facts);
    assert(ui::told_views(v@) == front + next);
    ui::lemma_says_both(front, next, x);
    assert(next[2] == x);
}

/// The banner says what this is, where its pages are and that it can be run again.
pub proof fn a_banner_says_what_this_is(v: Vec<Told>)
    requires
        call_ensures(banner, (), v),
    ensures
        v@.len() == 5,
        v@[1]@ == ui::ToldView::Line("  punktfunk guided host installer — PREVIEW"@),
        v@[2]@ == ui::ToldView::Line(
            "  The per-distro pages stay the documented path; this automates them. Docs: "@
                + "https://docs.punktfunk.unom.io/docs"@ + "/install"@,
        ),
        v@[3]@ == ui::ToldView::Line("  Re-running is safe. Ctrl-C stops between steps."@),
{
    let t = ui::told_views(v@);
    assert(t.len() == v@.len());
    assert(t[1] == v@[1]@ && t[2] == v@[2]@ && t[3] == v@[3]@);
}

} // verus!
