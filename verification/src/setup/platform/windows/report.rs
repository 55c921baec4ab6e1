//! The text around the Windows plan: what was found, what was chosen and what comes next.

use crate::setup::choices::{LAN_BIND, LOOPBACK_BIND};
use crate::setup::facts::DOCS;
use crate::setup::platform::windows::{
    Artifact, Installed, NetworkAnswer, WinChoices, WinFacts, MGMT_PORT_MOVED,
};
use crate::setup::ui;
use crate::setup::ui::{silence, tell, tell_line, Told};
use crate::text;
use vstd::prelude::*;
use vstd::string::StringExecFns;

verus! {

/// An optional text, or what stands for it.
pub open spec fn or_else(v: Option<String>, other: Seq<char>) -> Seq<char> {
    match v {
        Some(s) => s@,
        None => other,
    }
}

fn text_or<'a>(v: &'a Option<String>, other: &'a str) -> (s: &'a str)
    ensures
        s@ == or_else(*v, other@),
{
    match v {
        Some(s) => s.as_str(),
        None => other,
    }
}

/// What was found.
pub open spec fn detected_of(facts: WinFacts, artifact: Artifact) -> Seq<ui::ToldView> {
    let said = Seq::<ui::ToldView>::empty().push(
        ui::ToldView::Say(
            "Detected Windows (build "@ + text::decimal(facts.os_build as nat) + "), "@
                + facts.arch@ + " — "@ + (match artifact {
                Artifact::Host => "host"@,
                Artifact::Client => "client"@,
            }) + " installer"@,
        ),
    );
    match facts.install_for(artifact) {
        Some(i) => said.push(
            ui::ToldView::Fine(
                "existing install: "@ + or_else(i.version, "unknown version"@) + " at "@ + or_else(
                    i.location,
                    "the default dir"@,
                ),
            ),
        ),
        None => said,
    }
}

/// What was found.
pub fn detected(facts: &WinFacts, artifact: Artifact) -> (v: Vec<Told>)
    ensures
        ui::told_views(v@) == detected_of(*facts, artifact),
{
    let mut v: Vec<Told> = silence();
    let what: &str = match artifact {
        Artifact::Host => "host",
        Artifact::Client => "client",
    };
    tell(
        &mut v,
        Told::Say(
            "Detected Windows (build ".to_owned().concat(
                text::decimal_u64(facts.os_build as u64).as_str(),
            ).concat("), ").concat(facts.arch.as_str()).concat(" — ").concat(what).concat(
                " installer",
            ),
        ),
    );
    match facts.installed_for(artifact) {
        Some(i) => {
            tell(
                &mut v,
                Told::Fine(
                    "existing install: ".to_owned().concat(
                        text_or(&i.version, "unknown version"),
                    ).concat(" at ").concat(text_or(&i.location, "the default dir")),
                ),
            );
        },
        None => {},
    }
    v
}

pub open spec fn yes_no(on: bool) -> Seq<char> {
    if on {
        "yes"@
    } else {
        "no"@
    }
}

/// A choice that may keep what the box has.
pub open spec fn or_kept(v: Option<bool>) -> Seq<char> {
    match v {
        Some(on) => yes_no(on),
        None => "keep the box's setting"@,
    }
}

fn yn(on: bool) -> (s: &'static str)
    ensures
        s@ == yes_no(on),
{
    if on {
        "yes"
    } else {
        "no"
    }
}

fn kept(v: Option<bool>) -> (s: &'static str)
    ensures
        s@ == or_kept(v),
{
    match v {
        Some(on) => yn(on),
        None => "keep the box's setting",
    }
}

/// Where the console can be reached from, in the words of the wizard.
pub open spec fn bind_label_of(bind: Option<Seq<char>>) -> Seq<char> {
    match bind {
        None => "what host.env already says"@,
        Some(b) => if b == LOOPBACK_BIND@ {
            "this PC only"@
        } else if b == LAN_BIND@ {
            "this local network"@
        } else {
            b
        },
    }
}

fn bind_label(bind: &Option<String>) -> (s: String)
    ensures
        s@ == bind_label_of(text::opt_string(*bind)),
{
    match bind {
        None => "what host.env already says".to_owned(),
        Some(b) => if text::same(b.as_str(), LOOPBACK_BIND) {
            "this PC only".to_owned()
        } else if text::same(b.as_str(), LAN_BIND) {
            "this local network".to_owned()
        } else {
            b.clone()
        },
    }
}

/// A line of the summary.
pub open spec fn line_of(label: Seq<char>, value: Seq<char>) -> ui::ToldView {
    ui::ToldView::Line(label + value)
}

fn line(v: &mut Vec<Told>, label: &str, value: &str)
    ensures
        ui::told_views(final(v)@) == ui::told_views(old(v)@).push(line_of(label@, value@)),
{
    tell(v, Told::Line(label.to_owned().concat(value)));
}

/// The choices before anything runs.
pub open spec fn summary_of(choices: WinChoices, artifact: Artifact) -> Seq<ui::ToldView> {
    let said = Seq::<ui::ToldView>::empty().push(
        ui::ToldView::Say("Choices (nothing below has run yet)"@),
    );
    match artifact {
        Artifact::Host => said.push(
            line_of("  Virtual display driver: "@, yes_no(choices.install_driver)),
        ).push(line_of("  Gamepad drivers: "@, yes_no(choices.install_gamepad))).push(
            line_of("  HDR Vulkan layer: "@, yes_no(choices.install_hdr_layer)),
        ).push(line_of("  Moonlight compat: "@, or_kept(choices.gamestream))).push(
            line_of("  Public-network firewall rules: "@, or_kept(choices.allow_public_fw)),
        ).push(line_of("  Start the service: "@, yes_no(choices.start_service))).push(
            line_of("  Tray autostart: "@, yes_no(choices.tray_autostart)),
        ).push(
            line_of(
                "  Web console reachable from: "@,
                bind_label_of(text::opt_string(choices.web_bind)),
            ),
        ),
        Artifact::Client => said.push(
            line_of("  Desktop shortcut: "@, yes_no(choices.desktop_icon)),
        ),
    }
}

/// The choices before anything runs.
pub fn choices_summary(choices: &WinChoices, artifact: Artifact) -> (v: Vec<Told>)
    ensures
        ui::told_views(v@) == summary_of(*choices, artifact),
{
    let mut v: Vec<Told> = silence();
    tell(&mut v, Told::Say("Choices (nothing below has run yet)".to_owned()));
    match artifact {
        Artifact::Host => {
            line(&mut v, "  Virtual display driver: ", yn(choices.install_driver));
            line(&mut v, "  Gamepad drivers: ", yn(choices.install_gamepad));
            line(&mut v, "  HDR Vulkan layer: ", yn(choices.install_hdr_layer));
            line(&mut v, "  Moonlight compat: ", kept(choices.gamestream));
            line(&mut v, "  Public-network firewall rules: ", kept(choices.allow_public_fw));
            line(&mut v, "  Start the service: ", yn(choices.start_service));
            line(&mut v, "  Tray autostart: ", yn(choices.tray_autostart));
            line(
                &mut v,
                "  Web console reachable from: ",
                bind_label(&choices.web_bind).as_str(),
            );
        },
        Artifact::Client => {
            line(&mut v, "  Desktop shortcut: ", yn(choices.desktop_icon));
        },
    }
    v
}

/// The network stays public and the host cannot be reached there.
pub open spec fn unreachable(facts: WinFacts, choices: WinChoices) -> bool {
    choices.network is Skip && choices.allow_public_fw != Some(true) && facts.public().len() > 0
}

/// What a user must leave knowing: the moved port, and a host that cannot be reached.
pub open spec fn and_footnotes(
    s: Seq<ui::ToldView>,
    facts: WinFacts,
    choices: WinChoices,
) -> Seq<ui::ToldView> {
    ui::and_if(
        ui::and_if(
            s,
            facts.coexists(),
            ui::ToldView::Line(
                "  Running next to Sunshine/Apollo: punktfunk's management API is on :"@
                    + text::decimal(MGMT_PORT_MOVED as nat) + " — "@ + DOCS@
                    + "/switching-from-sunshine"@,
            ),
        ),
        unreachable(facts, choices),
        ui::ToldView::Line(
            "  ⚠ This network is Public and the firewall rules don't apply there — the host is unreachable until that changes ("@
                + DOCS@ + "/troubleshooting#windows-firewall)"@,
        ),
    )
}

fn add_footnotes(v: &mut Vec<Told>, facts: &WinFacts, choices: &WinChoices)
    ensures
        ui::told_views(final(v)@) == and_footnotes(ui::told_views(old(v)@), *facts, *choices),
{
    if facts.needs_coexistence() {
        tell(
            v,
            Told::Line(
                "  Running next to Sunshine/Apollo: punktfunk's management API is on :".to_owned().concat(
                    text::decimal_u64(MGMT_PORT_MOVED as u64).as_str(),
                ).concat(" — ").concat(DOCS).concat("/switching-from-sunshine"),
            ),
        );
    }
    let open: bool = match choices.allow_public_fw {
        Some(on) => on,
        None => false,
    };
    let skipped: bool = match choices.network {
        NetworkAnswer::Skip => true,
        _ => false,
    };
    let public: Vec<String> = facts.public_networks();
    assert(text::contents(public@).len() == public@.len());
    if skipped && !open && public.len() > 0 {
        tell(
            v,
            Told::Line(
                "  ⚠ This network is Public and the firewall rules don't apply there — the host is unreachable until that changes (".to_owned().concat(
                    DOCS,
                ).concat("/troubleshooting#windows-firewall)"),
            ),
        );
    }
}

/// What a user must leave knowing.
pub fn footnotes(facts: &WinFacts, choices: &WinChoices) -> (v: Vec<Told>)
    ensures
        ui::told_views(v@) == and_footnotes(Seq::empty(), *facts, *choices),
{
    let mut v: Vec<Told> = silence();
    add_footnotes(&mut v, facts, choices);
    v
}

/// What comes next on a host. The address has to be the one that answers.
pub open spec fn host_outro(facts: WinFacts, choices: WinChoices) -> Seq<ui::ToldView> {
    let done = Seq::<ui::ToldView>::empty().push(ui::ToldView::Blank).push(
        ui::ToldView::Line("  Done. Next:"@),
    );
    let console = if text::opt_string(choices.web_bind) == Some(LOOPBACK_BIND@) {
        done.push(
            ui::ToldView::Line(
                "  1. Open the web console:  https://127.0.0.1:47992  (the certificate is the host's own — continue past the warning)"@,
            ),
        ).push(
            ui::ToldView::Line(
                "     It answers on this PC only. Set PUNKTFUNK_UI_BIND in host.env to reach it from another device."@,
            ),
        )
    } else {
        done.push(
            ui::ToldView::Line(
                "  1. Open the web console:  https://<this-PC>:47992  (the certificate is the host's own — continue past the warning)"@,
            ),
        )
    };
    let password = ui::and_if(
        console,
        !facts.web_password_present,
        ui::ToldView::Line(
            "     password: punktfunk-host web password  (from an elevated PowerShell)"@,
        ),
    );
    and_footnotes(
        password.push(
            ui::ToldView::Line(
                "  2. Install a client on the device you stream to ("@ + DOCS@
                    + "/install-client), connect, and click Approve in the console."@,
            ),
        ),
        facts,
        choices,
    )
}

/// What comes next.
pub open spec fn outro_of(
    facts: WinFacts,
    choices: WinChoices,
    artifact: Artifact,
) -> Seq<ui::ToldView> {
    (match artifact {
        Artifact::Host => host_outro(facts, choices),
        Artifact::Client => Seq::<ui::ToldView>::empty().push(ui::ToldView::Blank).push(
            ui::ToldView::Line("  Done. Next:"@),
        ).push(
            ui::ToldView::Line("  1. Open Punktfunk from the Start menu and pick your host."@),
        ).push(ui::ToldView::Line("  2. Pairing help: "@ + DOCS@ + "/pairing"@)),
    }).push(ui::ToldView::Line("  Stuck? "@ + DOCS@ + "/troubleshooting"@)).push(
        ui::ToldView::Blank,
    )
}

/// What comes next.
pub fn outro(facts: &WinFacts, choices: &WinChoices, artifact: Artifact) -> (v: Vec<Told>)
    ensures
        ui::told_views(v@) == outro_of(*facts, *choices, artifact),
{
    let mut v: Vec<Told> = silence();
    tell(&mut v, Told::Blank);
    tell_line(&mut v, "  Done. Next:");
    match artifact {
        Artifact::Host => {
            let loopback: bool = match &choices.web_bind {
                Some(b) => text::same(b.as_str(), LOOPBACK_BIND),
                None => false,
            };
            if loopback {
                tell_line(
                    &mut v,
                    "  1. Open the web console:  https://127.0.0.1:47992  (the certificate is the host's own — continue past the warning)",
                );
                tell_line(
                    &mut v,
                    "     It answers on this PC only. Set PUNKTFUNK_UI_BIND in host.env to reach it from another device.",
                );
            } else {
                tell_line(
                    &mut v,
                    "  1. Open the web console:  https://<this-PC>:47992  (the certificate is the host's own — continue past the warning)",
                );
            }
            if !facts.web_password_present {
                tell_line(
                    &mut v,
                    "     password: punktfunk-host web password  (from an elevated PowerShell)",
                );
            }
            tell(
                &mut v,
                Told::Line(
                    "  2. Install a client on the device you stream to (".to_owned().concat(
                        DOCS,
                    ).concat("/install-client), connect, and click Approve in the console."),
                ),
            );
            add_footnotes(&mut v, facts, choices);
        },
        Artifact::Client => {
            tell_line(&mut v, "  1. Open Punktfunk from the Start menu and pick your host.");
            tell(
                &mut v,
                Told::Line("  2. Pairing help: ".to_owned().concat(DOCS).concat("/pairing")),
            );
        },
    }
    tell(&mut v, Told::Line("  Stuck? ".to_owned().concat(DOCS).concat("/troubleshooting")));
    tell(&mut v, Told::Blank);
    v
}

proof fn lemma_at(v: Seq<Told>, i: int)
    requires
        0 <= i < v.len(),
    ensures
        ui::told_views(v)[i] == v[i]@,
        ui::told_views(v).len() == v.len(),
{
}

/// What was found is told with the build, the machine and the installer, and an install that is
/// here with its version and place.
pub proof fn what_is_here_is_told(facts: &WinFacts, artifact: Artifact, v: Vec<Told>)
    requires
        call_ensures(detected, (facts, artifact), v),
    ensures
        ({
            let here = match artifact {
                Artifact::Host => facts.installed,
                Artifact::Client => facts.client_installed,
            };
            let who = match artifact {
                Artifact::Host => "host"@,
                Artifact::Client => "client"@,
            };
            &&& v@.len() == if here is Some {
                2int
            } else {
                1
            }
            &&& v@[0]@ == ui::ToldView::Say(
                "Detected Windows (build "@ + text::decimal(facts.os_build as nat) + "), "@
                    + facts.arch@ + " — "@ + who + " installer"@,
            )
            &&& here matches Some(i) ==> v@[1]@ == ui::ToldView::Fine(
                "existing install: "@ + (if i.version is Some {
                    i.version->0@
                } else {
                    "unknown version"@
                }) + " at "@ + (if i.location is Some {
                    i.location->0@
                } else {
                    "the default dir"@
                }),
            )
        }),
{
    assert(ui::told_views(v@).len() == v@.len());
    assert(ui::told_views(v@)[0] == v@[0]@);
    if facts.install_for(artifact) is Some {
        assert(ui::told_views(v@)[1] == v@[1]@);
    }
}

/// The summary shows each choice under its own name, and says where the box keeps what it has.
pub proof fn each_choice_is_shown(c: &WinChoices, v: Vec<Told>, w: Vec<Told>)
    requires
        call_ensures(choices_summary, (c, Artifact::Host), v),
        call_ensures(choices_summary, (c, Artifact::Client), w),
    ensures
        ({
            let yes = |on: bool|
                if on {
                    "yes"@
                } else {
                    "no"@
                };
            let kept = |on: Option<bool>|
                if on == Some(true) {
                    "yes"@
                } else if on == Some(false) {
                    "no"@
                } else {
                    "keep the box's setting"@
                };
            &&& v@.len() == 9
            &&& v@[0]@ == ui::ToldView::Say("Choices (nothing below has run yet)"@)
            &&& v@[1]@ == ui::ToldView::Line("  Virtual display driver: "@ + yes(c.install_driver))
            &&& v@[2]@ == ui::ToldView::Line("  Gamepad drivers: "@ + yes(c.install_gamepad))
            &&& v@[3]@ == ui::ToldView::Line("  HDR Vulkan layer: "@ + yes(c.install_hdr_layer))
            &&& v@[4]@ == ui::ToldView::Line("  Moonlight compat: "@ + kept(c.gamestream))
            &&& v@[5]@ == ui::ToldView::Line(
                "  Public-network firewall rules: "@ + kept(c.allow_public_fw),
            )
            &&& v@[6]@ == ui::ToldView::Line("  Start the service: "@ + yes(c.start_service))
            &&& v@[7]@ == ui::ToldView::Line("  Tray autostart: "@ + yes(c.tray_autostart))
            &&& v@[8]@ == ui::ToldView::Line(
                "  Web console reachable from: "@ + (if c.web_bind is None {
                    "what host.env already says"@
                } else if c.web_bind->0@ == "127.0.0.1"@ {
                    "this PC only"@
                } else if c.web_bind->0@ == "0.0.0.0"@ {
                    "this local network"@
                } else {
                    c.web_bind->0@
                }),
            )
            &&& w@.len() == 2
            &&& w@[1]@ == ui::ToldView::Line("  Desktop shortcut: "@ + yes(c.desktop_icon))
        }),
{
    let t = ui::told_views(v@);
    assert(t.len() == v@.len());
    assert(t[0] == v@[0]@ && t[1] == v@[1]@ && t[2] == v@[2]@ && t[3] == v@[3]@ && t[4] == v@[4]@);
    assert(t[5] == v@[5]@ && t[6] == v@[6]@ && t[7] == v@[7]@ && t[8] == v@[8]@);
    let u = ui::told_views(w@);
    assert(u.len() == w@.len());
    assert(u[1] == w@[1]@);
}

/// The moved port is told exactly where it was moved, and a host that cannot be reached exactly
/// where a public network was left alone with its rules closed.
pub proof fn a_host_out_of_reach_is_told_so(facts: &WinFacts, c: &WinChoices, v: Vec<Told>)
    requires
        call_ensures(footnotes, (facts, c), v),
    ensures
        ({
            let moved = ui::ToldView::Line(
                "  Running next to Sunshine/Apollo: punktfunk's management API is on :"@
                    + text::decimal(47991) + " — "@ + DOCS@ + "/switching-from-sunshine"@,
            );
            let shut = ui::ToldView::Line(
                "  ⚠ This network is Public and the firewall rules don't apply there — the host is unreachable until that changes ("@
                    + DOCS@ + "/troubleshooting#windows-firewall)"@,
            );
            let told = facts.competing_hosts@.len() > 0 && !facts.mgmt_bind_set;
            let closed = c.network is Skip && c.allow_public_fw != Some(true) && exists|i: int|
                0 <= i < facts.networks@.len() && (#[trigger] facts.networks@[i]).is_public;
            &&& told ==> v@.len() > 0 && v@[0]@ == moved
            &&& closed ==> v@.len() > 0 && v@.last()@ == shut
            &&& v@.len() == (if told {
                1int
            } else {
                0
            }) + (if closed {
                1int
            } else {
                0
            })
        }),
{
    crate::setup::platform::windows::lemma_somewhere_public(*facts);
    let t = ui::told_views(v@);
    assert(t.len() == v@.len());
    if v@.len() > 0 {
        lemma_at(v@, 0);
        lemma_at(v@, v@.len() - 1);
    }
}

/// A host's box is told the address that answers and where a new password stands; the client's
/// to open it and pick a host.
pub proof fn the_address_that_answers_is_told(
    facts: &WinFacts,
    c: &WinChoices,
    v: Vec<Told>,
    w: Vec<Told>,
)
    requires
        call_ensures(outro, (facts, c, Artifact::Host), v),
        call_ensures(outro, (facts, c, Artifact::Client), w),
    ensures
        v@.len() >= 6,
        v@[1]@ == ui::ToldView::Line("  Done. Next:"@),
        v@[2]@ == ui::ToldView::Line(
            if c.web_bind is Some && c.web_bind->0@ == "127.0.0.1"@ {
                "  1. Open the web console:  https://127.0.0.1:47992  (the certificate is the host's own — continue past the warning)"@
            } else {
                "  1. Open the web console:  https://<this-PC>:47992  (the certificate is the host's own — continue past the warning)"@
            },
        ),
        !facts.web_password_present ==> v@[if c.web_bind is Some && c.web_bind->0@
            == "127.0.0.1"@ {
            4int
        } else {
            3
        }]@ == ui::ToldView::Line(
            "     password: punktfunk-host web password  (from an elevated PowerShell)"@,
        ),
        facts.web_password_present ==> v@[if c.web_bind is Some && c.web_bind->0@ == "127.0.0.1"@ {
            4int
        } else {
            3
        }]@ == ui::ToldView::Line(
            "  2. Install a client on the device you stream to ("@ + DOCS@
                + "/install-client), connect, and click Approve in the console."@,
        ),
        v@[v@.len() - 2]@ == ui::ToldView::Line("  Stuck? "@ + DOCS@ + "/troubleshooting"@),
        w@.len() == 6,
        w@[2]@ == ui::ToldView::Line("  1. Open Punktfunk from the Start menu and pick your host."@),
        w@[3]@ == ui::ToldView::Line("  2. Pairing help: "@ + DOCS@ + "/pairing"@),
{
    let t = ui::told_views(v@);
    assert(t.len() == v@.len());
    assert(t[1] == v@[1]@ && t[2] == v@[2]@ && t[3] == v@[3]@ && t[4] == v@[4]@);
    lemma_at(v@, v@.len() - 2);
    let u = ui::told_views(w@);
    assert(u.len() == w@.len());
    assert(u[2] == w@[2]@ && u[3] == w@[3]@);
}

} // verus!
