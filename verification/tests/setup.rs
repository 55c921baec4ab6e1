use punktfunk::json::Json;
use punktfunk::setup::choices::{Action, Choices, Components, Toggles, LAN_BIND, LOOPBACK_BIND};
use punktfunk::setup::exec::{
    apt_switch, noninteractive, pacman_switch, password_body, set_env, step_failed, tell_env,
    tell_password, trust_cert, Deed, Executor, Files, Opts, Place, Point, Shell, TrustCtx,
    TrustDeed, TrustEvent,
};
use punktfunk::setup::facts::{Channel, Facts, Family, Firewall, Nvidia, OsRelease};
use punktfunk::setup::plan::{
    build, can_plan, repo_channel_suffix, switch_pkgs, Level, Phase, Plan, PlanPhase, SettingValue,
    Step, StepAction,
};
use punktfunk::setup::platform::{
    backend, floor, install_lines, split_at, windows, Catalogue, PlatformEntry,
};
use punktfunk::setup::report;
use punktfunk::setup::ui::summary::{Field, Item, Key, Screen, Step as KeyStep};
use punktfunk::setup::ui::tui::{action_of, answer_edit, editor};
use punktfunk::setup::ui::Told;

fn texts(v: &[&str]) -> Vec<String> {
    v.iter().map(|s| s.to_string()).collect()
}

fn entry(id: &str, floor: &str, install: &[&str]) -> PlatformEntry {
    PlatformEntry {
        id: id.to_string(),
        install: texts(install),
        floor: floor.to_string(),
    }
}

/// The platforms of a download page.
fn catalogue() -> Catalogue {
    Catalogue {
        platforms: vec![
            entry(
                "debian",
                "",
                &[
                    "sudo install -d -m 0755 /etc/apt/keyrings",
                    "curl -fsSL https://git.unom.io/key.asc | sudo tee /etc/apt/keyrings/punktfunk.asc >/dev/null",
                    "echo \"deb [signed-by=/etc/apt/keyrings/punktfunk.asc] https://git.unom.io/debian stable main\" | sudo tee /etc/apt/sources.list.d/punktfunk.list",
                    "sudo apt update",
                    "sudo apt install punktfunk-host punktfunk-web punktfunk-scripting",
                ],
            ),
            entry(
                "arch",
                "",
                &[
                    "curl -fsSL https://git.unom.io/key.asc | sudo pacman-key --add -",
                    "sudo pacman-key --lsign-key 0123ABCD",
                    "grep -q '^\\[punktfunk\\]' /etc/pacman.conf || printf '[punktfunk]\\nServer = https://git.unom.io/arch\\n' | sudo tee -a /etc/pacman.conf",
                    "sudo pacman -Syu punktfunk-host punktfunk-web punktfunk-scripting",
                ],
            ),
            entry(
                "omarchy",
                "",
                &[
                    "curl -fsSL https://git.unom.io/key.asc | sudo pacman-key --add -",
                    "sudo pacman-key --lsign-key 0123ABCD",
                    "grep -q '^\\[punktfunk\\]' /etc/pacman.conf || printf '[punktfunk]\\nServer = https://git.unom.io/arch\\n' | sudo tee -a /etc/pacman.conf",
                    "sudo pacman -Sy",
                    "sudo pacman -S punktfunk-host punktfunk-web punktfunk-scripting punktfunk-client",
                    "punktfunk-omarchy setup",
                ],
            ),
            entry(
                "fedora",
                "",
                &[
                    "sudo tee /etc/yum.repos.d/punktfunk.repo >/dev/null <<'REPO'",
                    "[punktfunk]",
                    "name=punktfunk",
                    "baseurl=https://git.unom.io/rpm/fedora-44",
                    "enabled=1",
                    "gpgcheck=1",
                    "repo_gpgcheck=1",
                    "gpgkey=https://git.unom.io/key.asc",
                    "metadata_expire=1h",
                    "type=rpm-md",
                    "REPO",
                    "sudo dnf install punktfunk punktfunk-web punktfunk-scripting",
                ],
            ),
            entry(
                "bazzite",
                "",
                &[
                    "curl -fsSL -o /tmp/punktfunk-sysext.sh https://git.unom.io/punktfunk-sysext.sh",
                    "sudo bash /tmp/punktfunk-sysext.sh install",
                ],
            ),
            entry(
                "steamos",
                "",
                &[
                    "git clone https://git.unom.io/unom/punktfunk ~/punktfunk",
                    "bash ~/punktfunk/scripts/steamdeck/install.sh",
                ],
            ),
            entry(
                "linux-client",
                "",
                &["flatpak install --user https://git.unom.io/io.unom.Punktfunk.flatpakref"],
            ),
            entry(
                "windows",
                &format!("Windows 11 (build {}) or newer", windows::plan::MIN_HOST_BUILD),
                &["punktfunk-host-setup.exe"],
            ),
        ],
    }
}

/// A box without our packages.
fn fresh(id: &str, family: Family) -> Facts {
    let docs = match family {
        Family::Apt if id == "ubuntu" => "ubuntu",
        Family::Apt => "debian",
        Family::Dnf => "fedora",
        Family::Sysext => "bazzite",
        Family::Pacman if id == "omarchy" => "omarchy",
        Family::Pacman => "arch",
        Family::Steamos => "steamos-host",
        Family::Flatpak => "install",
    };
    Facts {
        os: OsRelease {
            id: id.to_string(),
            id_like: String::new(),
            version_id: String::new(),
            pretty: id.to_string(),
        },
        family,
        omarchy: id == "omarchy",
        docs_page: format!("https://docs.punktfunk.unom.io/docs/{docs}"),
        host_punt: None,
        has_flatpak_client: false,
        rpm_group: if family == Family::Dnf {
            Some("fedora-44".to_string())
        } else {
            None
        },
        floor: None,
        couch_box: id == "bazzite" || id == "nobara",
        graphical_seat: true,
        desktop_sessions: true,
        sunshine_active: false,
        current_channel: None,
        installed_pf: vec![],
        missing: texts(&["host", "web-console", "plugin-runner"]),
        host_version: None,
        has_web_server: false,
        has_omarchy_bin: id == "omarchy",
        has_ujust: false,
        in_input_group: false,
        in_punktfunk_group: false,
        has_input_group: true,
        nvidia: Nvidia::Absent,
        firewall: Firewall::Absent,
        systemd_pid1: true,
        user_manager: true,
        web_unit_present: false,
        web_password_present: false,
        web_bind: None,
        scripting_unit_disabled: false,
        ip: Some("192.168.1.10".into()),
        user: "pf".into(),
    }
}

fn installed(id: &str, family: Family, channel: Channel) -> Facts {
    let pkgs: &[&str] = match family {
        Family::Dnf => &["punktfunk", "punktfunk-web", "punktfunk-scripting"],
        Family::Sysext => &[],
        _ => &["punktfunk-host", "punktfunk-web", "punktfunk-scripting"],
    };
    let mut f = fresh(id, family);
    f.missing = vec![];
    f.installed_pf = texts(pkgs);
    f.current_channel = Some(channel);
    f.host_version = Some("punktfunk-host 0.34.0".into());
    f.has_web_server = true;
    f.web_unit_present = true;
    f.web_password_present = true;
    f.in_input_group = true;
    f
}

/// What a bare run chooses on a box.
fn defaults(f: &Facts) -> Choices {
    let linger = f.couch_box || !f.graphical_seat;
    Choices {
        action: Action::Install,
        components: Components {
            host: true,
            client: false,
        },
        channel: f.current_channel.unwrap_or(Channel::Stable),
        switch_from: None,
        toggles: Toggles {
            punktfunk_group: true,
            gamestream: false,
            clipboard: true,
            linger,
            start: true,
            omarchy_toasts: true,
            omarchy_idle: true,
            omarchy_theme: true,
        },
        web_password: None,
        linger_why: None,
        omarchy_setup: true,
        group_why: Some("wheels and the usbip attach".to_string()),
        console_cert: true,
        move_mgmt_port: f.sunshine_active,
        mgmt_port: 47991,
        web_bind: LOOPBACK_BIND.to_string(),
    }
}

fn with_client(f: &Facts, host: bool) -> Choices {
    let mut c = defaults(f);
    c.components = Components { host, client: true };
    c
}

fn to_channel(f: &Facts, channel: Channel) -> Choices {
    let mut c = defaults(f);
    c.switch_from = match f.current_channel {
        Some(now) if now != channel => Some(now),
        _ => None,
    };
    c.channel = channel;
    c
}

fn uninstalling(f: &Facts) -> Choices {
    let mut c = defaults(f);
    c.action = Action::Uninstall;
    c
}

fn plan_for(f: &Facts, c: &Choices) -> Plan {
    let cat = catalogue();
    assert!(cat.is_fit());
    build(&cat, f, c)
}

fn commands(f: &Facts, c: &Choices) -> Vec<String> {
    plan_for(f, c).commands()
}

fn told(out: &mut String, t: &Told) {
    let line = match t {
        Told::Say(m) => format!("==> {m}"),
        Told::Fine(m) => format!("   {m}"),
        Told::Warn(m) => format!(" ! {m}"),
        Told::Plus(m) => format!("   + {m}"),
        Told::Detail(m) => format!("     {m}"),
        Told::Line(m) => m.clone(),
        Told::Blank => String::new(),
    };
    out.push_str(&line);
    out.push('\n');
}

/// What a dry run shows.
fn render(f: &Facts, c: &Choices) -> String {
    let opts = Opts {
        dry: true,
        quiet: false,
        tty: false,
    };
    let mut out = String::new();
    told(&mut out, &report::detected(f));
    for t in report::choices_summary(c) {
        told(&mut out, &t);
    }
    let plan = plan_for(f, c);
    let mut exec = Executor::new(opts, c);
    let mut at = Executor::first(&plan);
    while let Some(point) = at {
        let mut ran = false;
        match point {
            Point::Heading(k) => told(&mut out, &Told::Say(plan.phases[k].title.clone())),
            Point::Step(place) => {
                let action = &plan.phases[place.phase].steps[place.step].action;
                let run = |out: &mut String, s: Shell| {
                    assert!(!s.spawn, "a dry run starts nothing");
                    told(out, &Told::Plus(s.cmd));
                };
                ran = true;
                match exec.step(action, f, c, &files()) {
                    Deed::Run(s) => run(&mut out, s),
                    Deed::Say { told: t, ran: r } => {
                        told(&mut out, &t);
                        ran = r;
                    }
                    Deed::Nothing { ran: r } => ran = r,
                    Deed::StartUnits => {
                        let StepAction::StartUnits { units } = action else {
                            unreachable!()
                        };
                        match exec.start_units(units, true) {
                            Ok(s) => run(&mut out, s),
                            Err(_) => unreachable!(),
                        }
                    }
                    _ => panic!("a dry run writes nothing and asks nothing"),
                }
            }
        }
        at = exec.next(&plan, point, ran);
    }
    out
}

fn files() -> Files {
    Files {
        host_env: "/box/config/punktfunk/host.env".to_string(),
        password: "/box/config/punktfunk/web-password".to_string(),
        cert: "/box/config/punktfunk/native-cert.pem".to_string(),
        db: "/box/.pki/nssdb".to_string(),
    }
}

#[test]
fn the_yes_rewrite_table_matches_the_sh_installer() {
    assert_eq!(
        noninteractive("sudo apt install punktfunk-host"),
        "sudo apt install -y punktfunk-host"
    );
    assert_eq!(
        noninteractive("sudo pacman -Syu punktfunk-host"),
        "sudo pacman -Syu --noconfirm punktfunk-host"
    );
    assert_eq!(
        noninteractive("sudo pacman -S punktfunk-host"),
        "sudo pacman -S --noconfirm punktfunk-host"
    );
    assert_eq!(
        noninteractive("sudo pacman -Rdd punktfunk-icons"),
        "sudo pacman -Rdd --noconfirm punktfunk-icons"
    );
}

#[test]
fn syu_is_rewritten_once_not_twice() {
    let once = noninteractive("sudo pacman -Syu punktfunk-host");
    assert_eq!(once.matches("--noconfirm").count(), 1);
}

#[test]
fn a_command_with_no_rule_is_left_alone() {
    assert_eq!(
        noninteractive("sudo ufw allow punktfunk-web"),
        "sudo ufw allow punktfunk-web"
    );
    assert_eq!(
        noninteractive("systemctl --user enable --now punktfunk-host"),
        "systemctl --user enable --now punktfunk-host"
    );
}

#[test]
fn every_host_platform_parses_and_carries_install_lines() {
    let cat = catalogue();
    for id in ["debian", "arch", "omarchy", "fedora", "bazzite", "steamos"] {
        assert!(!install_lines(&cat, id).is_empty(), "{id} has no install lines");
    }
}

#[test]
fn the_windows_floor_names_the_build_the_check_uses() {
    assert!(floor(&catalogue(), "windows").contains(&windows::plan::MIN_HOST_BUILD.to_string()));
}

#[test]
fn shape_of_every_family_split() {
    let cat = catalogue();
    let (repo, install) = split_at(&cat, "debian", "sudo apt install");
    assert_eq!(repo.len(), 4, "keyring dir, key, sources line, update");
    assert_eq!(
        install,
        ["sudo apt install punktfunk-host punktfunk-web punktfunk-scripting"]
    );

    let (repo, install) = split_at(&cat, "arch", "sudo pacman -S");
    assert_eq!(repo.len(), 3, "key add, lsign, pacman.conf section");
    assert_eq!(
        install,
        ["sudo pacman -Syu punktfunk-host punktfunk-web punktfunk-scripting"]
    );

    let (repo, install) = split_at(&cat, "omarchy", "sudo pacman -S");
    assert_eq!(repo.len(), 3);
    assert_eq!(install[0], "sudo pacman -Sy");
    assert!(install[1].starts_with("sudo pacman -S punktfunk-host"));
    assert_eq!(
        install[2], "punktfunk-omarchy setup",
        "the hand-off is its own phase"
    );

    let (repo, install) = split_at(&cat, "fedora", "sudo dnf install");
    assert_eq!(
        repo.len(),
        11,
        "the whole heredoc, rejoined into one command"
    );
    assert_eq!(
        repo[0],
        "sudo tee /etc/yum.repos.d/punktfunk.repo >/dev/null <<'REPO'"
    );
    assert_eq!(repo[10], "REPO");
    assert_eq!(
        install,
        ["sudo dnf install punktfunk punktfunk-web punktfunk-scripting"]
    );

    assert_eq!(
        install_lines(&cat, "bazzite").len(),
        2,
        "fetch the script, run it"
    );

    let lines = install_lines(&cat, "steamos");
    assert_eq!(lines.len(), 2, "clone the source, run the on-device build");
    assert!(lines[0].starts_with("git clone"), "{:?}", lines[0]);
    assert!(
        lines[1].ends_with("scripts/steamdeck/install.sh"),
        "the gamestream flag is appended to this line: {:?}",
        lines[1]
    );
}

#[test]
fn a_plan_needs_only_its_own_familys_lines() {
    let mut cat = catalogue();
    cat.platforms.retain(|p| p.id == "debian");
    assert!(!cat.is_fit());
    let f = fresh("debian", Family::Apt);
    let c = defaults(&f);
    assert!(can_plan(&cat, &f, &c));
    assert_eq!(build(&cat, &f, &c).commands(), commands(&f, &c));
    let dnf = fresh("fedora", Family::Dnf);
    assert!(!can_plan(&cat, &dnf, &defaults(&dnf)));
    assert!(!cat.can_serve(Family::Pacman, &f));
    assert!(cat.can_serve(Family::Flatpak, &f));
    // To uninstall takes no line at all.
    let gone = uninstalling(&dnf);
    assert!(can_plan(&cat, &dnf, &gone));
    assert_eq!(build(&cat, &dnf, &gone).commands(), commands(&dnf, &gone));
}

#[test]
fn a_catalogue_without_a_marker_is_not_fit() {
    let mut cat = catalogue();
    cat.platforms[3].install.pop();
    assert!(!cat.is_fit());
    assert!(install_lines(&cat, "nowhere").is_empty());
    assert_eq!(floor(&cat, "nowhere"), "");
}

// ---------------------------------------------------------------- the settings list

fn screen_facts(id: &str, family: Family) -> Facts {
    let mut f = fresh(id, family);
    f.missing = texts(&["host"]);
    f.has_omarchy_bin = false;
    f.firewall = Firewall::Ufw;
    f.web_unit_present = true;
    f.ip = None;
    f
}

fn screen() -> Screen {
    let f = screen_facts("arch", Family::Pacman);
    let c = defaults(&f);
    Screen::new(f, c)
}

#[test]
fn enter_on_arrival_installs() {
    let mut s = screen();
    assert_eq!(s.selected(), Item::Go);
    assert_eq!(s.key(Key::Enter), KeyStep::Run(Action::Install));
}

#[test]
fn the_cursor_moves_and_wraps() {
    let mut s = screen();
    let last = s.items.len() - 1;
    assert_eq!(s.key(Key::Up), KeyStep::Idle);
    assert_eq!(s.cursor, last, "up from the top wraps to the bottom");
    assert_eq!(s.key(Key::Down), KeyStep::Idle);
    assert_eq!(s.cursor, 0);
}

#[test]
fn enter_on_a_row_asks_the_renderer_to_edit_it() {
    let mut s = screen();
    s.key(Key::Down);
    s.key(Key::Down);
    assert_eq!(s.key(Key::Enter), KeyStep::Edit(Field::Channel));
}

#[test]
fn cancel_leaves_without_running_anything() {
    let mut s = screen();
    assert_eq!(s.key(Key::Cancel), KeyStep::Cancel);
}

#[test]
fn turning_moonlight_compat_on_adds_the_gamestream_firewall_line() {
    let cat = catalogue();
    let mut s = screen();
    assert!(!s
        .plan(&cat)
        .commands()
        .iter()
        .any(|c| c.contains("punktfunk-gamestream")));
    s.set_bool(Field::Gamestream, true);
    assert!(
        s.plan(&cat)
            .commands()
            .iter()
            .any(|c| c == "sudo ufw allow punktfunk-gamestream"),
        "the firewall step did not appear: {:?}",
        s.plan(&cat).commands()
    );
}

#[test]
fn turning_the_group_off_drops_the_usermod_and_its_why_text() {
    let cat = catalogue();
    let mut s = screen();
    assert!(s
        .plan(&cat)
        .commands()
        .iter()
        .any(|c| c.contains("usermod -aG punktfunk")));
    s.set_bool(Field::Group, false);
    assert!(!s
        .plan(&cat)
        .commands()
        .iter()
        .any(|c| c.contains("usermod -aG punktfunk")));
    assert!(s.choices.group_why.is_none());
}

#[test]
fn the_group_row_always_states_the_usbip_grant() {
    let s = screen();
    assert!(s.value(Field::Group).contains("usbip attach"));
    assert!(Screen::why(Field::Group).contains("usbip attach"));
}

#[test]
fn choosing_a_channel_the_box_is_not_on_shows_it_as_a_switch() {
    let mut f = screen_facts("arch", Family::Pacman);
    f.current_channel = Some(Channel::Stable);
    let c = defaults(&f);
    let mut s = Screen::new(f, c);
    s.set_channel(Channel::Canary);
    assert_eq!(s.value(Field::Channel), "stable → canary");
    s.set_channel(Channel::Stable);
    assert_eq!(
        s.value(Field::Channel),
        "stable",
        "back where it started is not a switch"
    );
}

#[test]
fn a_client_only_screen_drops_every_host_row() {
    let f = screen_facts("debian", Family::Apt);
    let c = with_client(&f, false);
    let s = Screen::new(f, c);
    let fields: Vec<Field> = s
        .items
        .iter()
        .filter_map(|i| match i {
            Item::Row(f) => Some(*f),
            _ => None,
        })
        .collect();
    assert_eq!(fields, [Field::Components, Field::Channel]);
}

#[test]
fn switching_components_to_client_only_reshapes_the_screen() {
    let mut s = screen();
    s.set_components(false, true);
    assert!(!s.items.contains(&Item::Row(Field::Group)));
    assert!(s.cursor < s.items.len(), "the cursor was left past the end");
}

#[test]
fn an_installed_box_re_titles_and_offers_uninstall() {
    let mut f = screen_facts("arch", Family::Pacman);
    f.missing = vec![];
    f.host_version = Some("punktfunk-host 0.34.0".into());
    f.current_channel = Some(Channel::Canary);
    let c = defaults(&f);
    let s = Screen::new(f, c);
    assert!(s.manage_mode());
    assert_eq!(s.title(), "punktfunk-host 0.34.0 · canary");
    assert!(s.items.contains(&Item::Uninstall));
}

#[test]
fn a_fresh_box_offers_no_uninstall() {
    assert!(!screen().items.contains(&Item::Uninstall));
}

// ---------------------------------------------------------------- plans

#[test]
fn client_installs_per_family() {
    // `-Syu`, not `-S`: a client-only run adds the repo and installs in one go. `-S` against
    // an unfetched database dies with "target not found".
    for (name, facts, line) in [
        (
            "debian-client-only",
            fresh("debian", Family::Apt),
            "sudo apt install punktfunk-client",
        ),
        (
            "arch-client-only",
            fresh("arch", Family::Pacman),
            "sudo pacman -Syu punktfunk-client",
        ),
        (
            "fedora-client-only",
            fresh("fedora", Family::Dnf),
            "sudo dnf install punktfunk-client",
        ),
    ] {
        let cmds = commands(&facts, &with_client(&facts, false));
        assert!(
            cmds.iter().any(|c| c == line),
            "{name} should run `{line}`: {cmds:?}"
        );
    }

    let f = fresh("debian", Family::Apt);
    let cmds = commands(&f, &with_client(&f, true));
    assert!(
        cmds.iter()
            .any(|c| c.ends_with("punktfunk-scripting punktfunk-client")),
        "host and client should be one transaction: {cmds:?}"
    );
}

#[test]
fn a_couch_box_gets_the_client_as_a_flatpak() {
    let f = fresh("bazzite", Family::Sysext);
    let cmds = commands(&f, &with_client(&f, true));
    assert!(
        cmds.iter()
            .any(|c| c.contains("punktfunk-sysext.sh install")),
        "{cmds:?}"
    );
    assert!(
        cmds.iter().any(|c| c.starts_with("flatpak install --user")),
        "{cmds:?}"
    );
}

#[test]
fn an_unsupported_distro_still_installs_a_client() {
    let mut facts = fresh("voidlinux", Family::Flatpak);
    facts.host_punt = Some("no package repo for 'Void Linux' yet".into());
    let cmds = commands(&facts, &with_client(&facts, false));
    assert_eq!(
        cmds.len(),
        1,
        "a client-only install wires nothing else: {cmds:?}"
    );
    assert!(cmds[0].starts_with("flatpak install --user"), "{cmds:?}");
}

#[test]
fn uninstall_sweeps_a_flatpak_client_too() {
    let mut facts = installed("debian", Family::Apt, Channel::Stable);
    facts.has_flatpak_client = true;
    let cmds = commands(&facts, &uninstalling(&facts));
    assert!(
        cmds.iter()
            .any(|c| c == "flatpak uninstall --user io.unom.Punktfunk"),
        "the flatpak client was left behind: {cmds:?}"
    );
    let mut bare = installed("debian", Family::Apt, Channel::Stable);
    bare.has_flatpak_client = false;
    assert!(!commands(&bare, &uninstalling(&bare))
        .iter()
        .any(|c| c.contains("flatpak")));
}

#[test]
fn a_client_only_plan_wires_none_of_the_host_setup() {
    let f = fresh("debian", Family::Apt);
    let cmds = commands(&f, &with_client(&f, false));
    assert!(!cmds.iter().any(|c| c.contains("usermod")), "{cmds:?}");
    assert!(
        !cmds
            .iter()
            .any(|c| c.contains("ufw") || c.contains("firewall-cmd")),
        "{cmds:?}"
    );
    assert!(!cmds.iter().any(|c| c.contains("loginctl")), "{cmds:?}");
    assert!(
        !cmds.iter().any(|c| c.contains("systemctl --user enable")),
        "{cmds:?}"
    );
}

#[test]
fn the_flatpak_line_is_carried_verbatim() {
    let facts = fresh("bazzite", Family::Sysext);
    let text = render(&facts, &with_client(&facts, false));
    for line in install_lines(&catalogue(), "linux-client") {
        let line = noninteractive(&line);
        assert!(
            text.contains(&line),
            "the flatpak line drifted:\n  {line}\n\n{text}"
        );
    }
}

#[test]
fn trap_channel_follows_the_box_without_an_explicit_flag() {
    let facts = installed("arch", Family::Pacman, Channel::Canary);
    let choices = defaults(&facts);
    assert_eq!(choices.channel, Channel::Canary);
    assert_eq!(choices.switch_from, None);
    let cmds = commands(&facts, &choices);
    assert!(
        !cmds
            .iter()
            .any(|c| c.contains("pacman.conf") || c.contains("pacman-key")),
        "a re-run rewrote the repo it already had: {cmds:?}"
    );
    assert!(
        cmds.iter()
            .any(|c| c.starts_with("sudo pacman -Syu punktfunk-host")),
        "a re-run must upgrade the packages it already has: {cmds:?}"
    );
}

#[test]
fn trap_apt_switch_pins_versions_and_allows_downgrades() {
    let facts = installed("debian", Family::Apt, Channel::Canary);
    let text = render(&facts, &to_channel(&facts, Channel::Stable));
    assert!(
        text.contains("sudo apt install -y --allow-downgrades"),
        "{text}"
    );
    assert!(text.contains("punktfunk-host=<version>"), "{text}");
    // Repo rewrite first: madison's first row is then the target channel's newest.
    let repo = text
        .find(" stable main")
        .expect("the sources line names the target channel");
    let install = text.find("--allow-downgrades").expect("the pinned install");
    assert!(
        repo < install,
        "the pins were resolved against the old channel:\n{text}"
    );
}

#[test]
fn trap_pacman_switch_uses_sy_then_s_and_never_syu() {
    let facts = installed("arch", Family::Pacman, Channel::Canary);
    let cmds = commands(&facts, &to_channel(&facts, Channel::Stable));
    assert!(cmds.contains(&"sudo pacman -Sy".to_string()), "{cmds:?}");
    assert!(
        !cmds.iter().any(|c| c.starts_with("sudo pacman -Syu")),
        "{cmds:?}"
    );
    // Drop the old repo section first, or both stay enabled.
    assert!(
        cmds[0].contains("sed -i"),
        "the old repo section must be dropped first: {cmds:?}"
    );
}

#[test]
fn trap_a_complete_omarchy_box_still_refreshes_and_upgrades() {
    let facts = installed("omarchy", Family::Pacman, Channel::Canary);
    let cmds = commands(&facts, &defaults(&facts));
    let pacman: Vec<&String> = cmds
        .iter()
        .filter(|c| c.starts_with("sudo pacman"))
        .collect();
    assert_eq!(pacman.len(), 2, "{cmds:?}");
    assert_eq!(pacman[0], "sudo pacman -Sy", "{cmds:?}");
    assert!(
        pacman[1].starts_with("sudo pacman -S punktfunk-host"),
        "{cmds:?}"
    );
}

#[test]
fn trap_every_host_install_trusts_the_console_cert_after_the_start() {
    let has_cert = |plan: &Plan| {
        plan.steps()
            .iter()
            .any(|s| matches!(s.action, StepAction::TrustCert))
    };
    for (id, family) in [
        ("debian", Family::Apt),
        ("fedora", Family::Dnf),
        ("arch", Family::Pacman),
        ("bazzite", Family::Sysext),
    ] {
        let f = fresh(id, family);
        let plan = plan_for(&f, &defaults(&f));
        assert!(has_cert(&plan), "{id} does not trust the certificate");
        let start = plan
            .phases
            .iter()
            .position(|p| p.kind == Phase::Start)
            .expect("a start phase");
        assert!(
            matches!(
                plan.phases[start].steps.last().map(|s| &s.action),
                Some(StepAction::TrustCert)
            ),
            "{id}: the trust step must close the start phase"
        );
    }
    let f = fresh("arch", Family::Pacman);
    let mut off = defaults(&f);
    off.console_cert = false;
    assert!(!has_cert(&plan_for(&f, &off)));
    let mut no_start = defaults(&f);
    no_start.toggles.start = false;
    assert!(!has_cert(&plan_for(&f, &no_start)));
    assert!(!has_cert(&plan_for(&f, &with_client(&f, false))));
}

#[test]
fn trap_omarchy_installs_with_sy_then_s_not_syu() {
    let f = fresh("omarchy", Family::Pacman);
    let cmds = commands(&f, &defaults(&f));
    assert!(cmds.contains(&"sudo pacman -Sy".to_string()), "{cmds:?}");
    assert!(
        !cmds.iter().any(|c| c.starts_with("sudo pacman -Syu")),
        "{cmds:?}"
    );
    assert!(
        cmds.iter().any(|c| c.contains("punktfunk-client")),
        "omarchy gets the client too"
    );
}

#[test]
fn trap_omarchy_uninstall_runs_remove_before_pacman_rns() {
    let facts = installed("omarchy", Family::Pacman, Channel::Stable);
    let cmds = commands(&facts, &uninstalling(&facts));
    let remove = cmds
        .iter()
        .position(|c| c == "punktfunk-omarchy remove")
        .expect("remove step");
    let rns = cmds
        .iter()
        .position(|c| c.starts_with("sudo pacman -Rns"))
        .expect("pacman -Rns");
    assert!(
        remove < rns,
        "the wiring must come off before the binary that removes it: {cmds:?}"
    );
}

#[test]
fn trap_the_omarchy_hand_off_ends_the_run() {
    let f = fresh("omarchy", Family::Pacman);
    let plan = plan_for(&f, &defaults(&f));
    let steps = plan.steps();
    let handoff = steps
        .iter()
        .find(|s| matches!(&s.action, StepAction::RunIfPresent { cmd, .. } if cmd.starts_with("punktfunk-omarchy setup")))
        .expect("the hand-off step");
    assert!(handoff.ends_run);
}

#[test]
fn trap_the_steamos_build_ends_the_run_and_sets_host_env_after_it() {
    let f = fresh("steamos", Family::Steamos);
    let plan = plan_for(&f, &defaults(&f));
    let all = plan.steps();
    let steps: Vec<&StepAction> = all.iter().map(|s| &s.action).collect();
    let build = steps
        .iter()
        .position(|a| matches!(a, StepAction::Run(c) if c.contains("scripts/steamdeck/install.sh")))
        .expect("the on-device build step");
    let env = steps
        .iter()
        .position(|a| matches!(a, StepAction::SetEnv { key, .. } if key == "PUNKTFUNK_CLIPBOARD"))
        .expect("the clipboard step");
    assert!(build < env, "host.env would swallow the encoder default");

    let last = all
        .iter()
        .find(|s| s.ends_run)
        .expect("a step that ends the run");
    assert!(
        matches!(&last.action, StepAction::SetEnv { key, .. } if key == "PUNKTFUNK_CLIPBOARD"),
        "the run must end on the last step of the hand-off, not before it"
    );
}

#[test]
fn trap_a_hand_off_never_skips_the_mgmt_port_move() {
    for (id, family) in [("omarchy", Family::Pacman), ("steamos", Family::Steamos)] {
        let mut facts = fresh(id, family);
        facts.sunshine_active = true;
        let plan = plan_for(&facts, &defaults(&facts));
        let steps = plan.steps();
        let end = steps
            .iter()
            .position(|s| s.ends_run)
            .expect("a step that ends the run");
        assert!(
            steps[..=end].iter().any(|s| matches!(
                &s.action,
                StepAction::SetEnv { key, value }
                    if key == "PUNKTFUNK_MGMT_BIND" && value == "0.0.0.0:47991"
            )),
            "{id}: the move is planned after the run ends"
        );
    }
}

#[test]
fn trap_the_steamos_clone_tolerates_a_tree_that_is_already_there() {
    let f = fresh("steamos", Family::Steamos);
    let cmds = commands(&f, &defaults(&f));
    let clone = cmds
        .iter()
        .find(|c| c.contains("git clone"))
        .expect("the clone command");
    assert!(clone.starts_with("[ -d ~/punktfunk/.git ] ||"), "{clone}");
}

#[test]
fn trap_the_steamos_build_is_announced_before_it_runs() {
    let f = fresh("steamos", Family::Steamos);
    let plan = plan_for(&f, &defaults(&f));
    let all = plan.steps();
    let steps: Vec<&StepAction> = all.iter().map(|s| &s.action).collect();
    let note = steps
        .iter()
        .position(|a| matches!(a, StepAction::Note(_, t) if t.contains("20 minutes")))
        .expect("the wait is announced");
    let build = steps
        .iter()
        .position(|a| matches!(a, StepAction::Run(c) if c.contains("scripts/steamdeck/install.sh")))
        .expect("the on-device build step");
    assert!(
        note < build,
        "the estimate must print before the build starts"
    );
}

#[test]
fn trap_steamos_forwards_the_gamestream_choice_to_the_script() {
    let f = fresh("steamos", Family::Steamos);
    let mut on = defaults(&f);
    on.toggles.gamestream = true;
    let cmds = commands(&f, &on);
    assert!(
        cmds.iter()
            .any(|c| c.ends_with("scripts/steamdeck/install.sh --gamestream")),
        "{cmds:?}"
    );
}

#[test]
fn the_hand_off_carries_every_row_it_used_to_ask_for() {
    let f = fresh("omarchy", Family::Pacman);
    let mut off = defaults(&f);
    off.toggles.omarchy_toasts = false;
    off.toggles.omarchy_theme = false;
    let cmds = commands(&f, &off);
    let handoff = cmds
        .iter()
        .find(|c| c.starts_with("punktfunk-omarchy setup"))
        .expect("the hand-off command");
    assert!(handoff.contains("--toasts=0"), "{handoff}");
    assert!(handoff.contains("--theme=0"), "{handoff}");
    assert!(handoff.contains("--idle-guard=1"), "{handoff}");
    assert!(handoff.contains("--cert=1"), "{handoff}");
    assert!(handoff.contains("--groups=1"), "{handoff}");
}

#[test]
fn trap_the_hand_off_can_be_declined() {
    let f = fresh("omarchy", Family::Pacman);
    let mut declined = defaults(&f);
    declined.omarchy_setup = false;
    let cmds = commands(&f, &declined);
    assert!(
        !cmds
            .iter()
            .any(|c| c.starts_with("punktfunk-omarchy setup")),
        "{cmds:?}"
    );
    assert!(
        cmds.iter().any(|c| c.contains("usermod -aG punktfunk")),
        "{cmds:?}"
    );
}

#[test]
fn trap_switch_pkgs_carries_packages_the_installer_never_installed() {
    let mut facts = installed("arch", Family::Pacman, Channel::Canary);
    facts.installed_pf.push("punktfunk-gamescope".into());
    facts.installed_pf.push("punktfunk-client".into());
    let text = render(&facts, &to_channel(&facts, Channel::Stable));
    assert!(
        text.contains("punktfunk-gamescope"),
        "gamescope was stranded:\n{text}"
    );
    assert!(
        text.contains("punktfunk-client"),
        "the client was stranded:\n{text}"
    );
}

#[test]
fn trap_dnf_switch_installs_then_distro_syncs() {
    let facts = installed("fedora", Family::Dnf, Channel::Canary);
    let cmds = commands(&facts, &to_channel(&facts, Channel::Stable));
    let install = cmds
        .iter()
        .position(|c| c.starts_with("sudo dnf install"))
        .expect("install");
    let sync = cmds
        .iter()
        .position(|c| c.starts_with("sudo dnf distro-sync"))
        .expect("sync");
    assert!(install < sync, "{cmds:?}");
}

#[test]
fn trap_linger_is_planned_before_the_unit_enable() {
    let mut facts = fresh("debian", Family::Apt);
    facts.graphical_seat = false;
    let plan = plan_for(&facts, &defaults(&facts));
    let linger = plan
        .phases
        .iter()
        .position(|p| p.kind == Phase::Linger)
        .expect("linger phase");
    let start = plan
        .phases
        .iter()
        .position(|p| p.kind == Phase::Start)
        .expect("start phase");
    assert!(linger < start, "the user manager would not exist yet");
}

#[test]
fn trap_a_box_with_the_host_but_no_console_still_installs() {
    let mut facts = installed("debian", Family::Apt, Channel::Stable);
    facts.missing = vec!["web-console".into()];
    let cmds = commands(&facts, &defaults(&facts));
    assert!(
        cmds.iter()
            .any(|c| c == "sudo apt install punktfunk-host punktfunk-web punktfunk-scripting"),
        "a weak-deps-off box would never grow a console: {cmds:?}"
    );
}

#[test]
fn trap_uninstall_disables_user_units_before_removing_packages() {
    for (id, family, verb) in [
        ("debian", Family::Apt, "sudo apt purge"),
        ("fedora", Family::Dnf, "sudo dnf remove"),
        ("arch", Family::Pacman, "sudo pacman -Rns"),
    ] {
        let facts = installed(id, family, Channel::Stable);
        let cmds = commands(&facts, &uninstalling(&facts));
        assert!(
            cmds[0].starts_with("systemctl --user disable --now"),
            "{id}: {cmds:?}"
        );
        assert!(cmds.iter().any(|c| c.starts_with(verb)), "{id}: {cmds:?}");
    }
}

#[test]
fn trap_uninstall_removes_only_what_is_installed() {
    let mut facts = installed("debian", Family::Apt, Channel::Stable);
    facts.installed_pf = vec!["punktfunk-host".into()];
    let cmds = commands(&facts, &uninstalling(&facts));
    assert!(
        cmds.contains(&"sudo apt purge punktfunk-host".to_string()),
        "{cmds:?}"
    );
}

#[test]
fn trap_uninstall_on_a_bare_box_skips_the_package_removal() {
    let facts = fresh("debian", Family::Apt);
    let cmds = commands(&facts, &uninstalling(&facts));
    assert!(
        !cmds.iter().any(|c| c.starts_with("sudo apt purge")),
        "{cmds:?}"
    );
    assert!(
        cmds.iter().any(|c| c.starts_with("sudo rm -f")),
        "the repo still goes: {cmds:?}"
    );
}

#[test]
fn trap_a_ujust_box_uses_the_recipe_not_usermod() {
    let mut facts = fresh("bazzite", Family::Sysext);
    facts.has_ujust = true;
    let cmds = commands(&facts, &defaults(&facts));
    let recipe = cmds
        .iter()
        .find(|c| c.starts_with("ujust add-user-to-input-group"))
        .unwrap_or_else(|| panic!("{cmds:?}"));
    assert!(
        recipe.starts_with("ujust add-user-to-input-group add"),
        "a bare recipe call opens a prompt the run cannot answer: {recipe}"
    );
}

#[test]
fn every_platforms_json_install_line_is_carried_verbatim() {
    let cases = [
        ("debian", fresh("debian", Family::Apt)),
        ("arch", fresh("arch", Family::Pacman)),
        ("omarchy", fresh("omarchy", Family::Pacman)),
        ("fedora", fresh("fedora", Family::Dnf)),
        ("bazzite", fresh("bazzite", Family::Sysext)),
        ("steamos", fresh("steamos", Family::Steamos)),
    ];
    for (id, facts) in cases {
        let text = render(&facts, &defaults(&facts));
        for line in install_lines(&catalogue(), id) {
            let line = noninteractive(&line);
            assert!(
                text.contains(&line),
                "the {id} dry-run no longer carries the line:\n  {line}\n\n{text}"
            );
        }
    }
}

#[test]
fn a_typed_console_password_is_written_but_never_echoed() {
    let facts = fresh("omarchy", Family::Pacman);
    let mut choices = defaults(&facts);
    let untyped = plan_for(&facts, &choices);
    choices.web_password = Some("correct-horse-battery".into());
    let text = render(&facts, &choices);
    assert!(
        !text.contains("correct-horse"),
        "the password reached the transcript:\n{text}"
    );
    assert!(
        text.contains("would write your password to /box/config/punktfunk/web-password"),
        "the dry run does not say where the password goes:\n{text}"
    );
    let kinds: Vec<Phase> = untyped.phases.iter().map(|p| p.kind).collect();
    assert!(!kinds.contains(&Phase::Password), "nobody asked for one");
    let phases = plan_for(&facts, &choices);
    let kinds: Vec<Phase> = phases.phases.iter().map(|p| p.kind).collect();
    let at = |k: Phase| kinds.iter().position(|p| *p == k);
    assert!(
        at(Phase::Password) < at(Phase::Omarchy),
        "the hand-off would end the run first: {kinds:?}"
    );
}

#[test]
fn the_password_file_is_written_owner_only() {
    // The mode of the file belongs to the writer; its contents are these.
    let facts = fresh("arch", Family::Pacman);
    let mut choices = defaults(&facts);
    choices.web_password = Some("correct-horse-battery".into());
    let plan = Plan {
        phases: vec![PlanPhase {
            kind: Phase::Password,
            title: "Web console password".into(),
            steps: vec![Step {
                action: StepAction::WebPassword,
                ends_run: false,
            }],
        }],
    };
    let opts = Opts {
        dry: false,
        quiet: false,
        tty: false,
    };
    let mut exec = Executor::new(opts, &choices);
    let head = Executor::first(&plan).expect("one phase");
    let at = exec.next(&plan, head, false).expect("one step");
    assert_eq!(at, Point::Step(Place { phase: 0, step: 0 }));
    let action = &plan.phases[0].steps[0].action;
    assert!(matches!(
        exec.step(action, &facts, &choices, &files()),
        Deed::Password { body } if body == "PUNKTFUNK_UI_PASSWORD=correct-horse-battery\n"
    ));
    assert_eq!(exec.next(&plan, at, true), None);
    assert_eq!(
        password_body(choices.web_password.as_deref().unwrap()),
        "PUNKTFUNK_UI_PASSWORD=correct-horse-battery\n"
    );
}

// ---------------------------------------------------------------- running a plan

#[test]
fn a_key_is_set_where_it_stands() {
    assert_eq!(set_env("", "A", "1"), "A=1\n");
    assert_eq!(set_env("B=2\nA=1\nC=3\n", "A", "9"), "B=2\nA=9\nC=3\n");
    assert_eq!(
        set_env(&set_env("B=2", "A", "1"), "A", "2"),
        "B=2\nA=2\n"
    );
}

#[test]
fn a_failed_step_shows_its_last_thirty_lines() {
    let lines: Vec<String> = (1..=40).map(|i| format!("l{i}")).collect();
    let f = step_failed("https://d/x", true, &lines);
    assert!(f.0.contains("https://d/x\n   the step's last lines:\n     l11\n"));
    assert!(f.0.ends_with("\n     l40"));
    assert!(!f.0.contains("l10\n"));
    assert!(!step_failed("d", false, &lines).0.contains("l40"));
}

#[test]
fn apt_pins_what_the_channel_offers() {
    let pkgs = texts(&["punktfunk-host", "punktfunk-old", "punktfunk-web"]);
    let rows = vec![
        Some("punktfunk-host | 1.2-3 | https://x stable/main".to_string()),
        None,
        Some(" punktfunk-web | 2.0 | y".to_string()),
    ];
    assert_eq!(
        apt_switch(&pkgs, &rows, false, Channel::Stable),
        Ok("sudo apt install --allow-downgrades punktfunk-host=1.2-3 punktfunk-web=2.0".to_string())
    );
    let none = apt_switch(&pkgs, &vec![None, None, None], false, Channel::Canary);
    assert!(none.unwrap_err().0.starts_with("the canary apt channel offers no punktfunk packages"));
}

#[test]
fn pacman_removes_what_the_channel_lacks() {
    let s = pacman_switch(
        &texts(&["punktfunk-host", "punktfunk-icons"]),
        &vec![true, false],
        false,
        Some(Channel::Stable),
    );
    assert_eq!(s.install, "sudo pacman -S punktfunk-host");
    assert_eq!(s.removal.as_deref(), Some("sudo pacman -Rdd punktfunk-icons"));
    assert_eq!(s.told.len(), 1);
}

#[test]
fn switches_name_each_package_once() {
    assert_eq!(
        switch_pkgs(texts(&["a", "b"]), &texts(&["b", "c", "a", "c"])),
        texts(&["a", "b", "c"])
    );
}

#[test]
fn a_hand_off_ends_only_a_run_that_did_it() {
    let step = |end| Step {
        action: StepAction::Note(Level::Good, "x".to_string()),
        ends_run: end,
    };
    let plan = Plan {
        phases: vec![
            PlanPhase {
                kind: Phase::Omarchy,
                title: String::new(),
                steps: vec![step(true)],
            },
            PlanPhase {
                kind: Phase::Groups,
                title: String::new(),
                steps: vec![],
            },
            PlanPhase {
                kind: Phase::Start,
                title: String::new(),
                steps: vec![step(false)],
            },
        ],
    };
    let c = defaults(&fresh("omarchy", Family::Pacman));
    let real = Executor::new(
        Opts {
            dry: false,
            quiet: true,
            tty: false,
        },
        &c,
    );
    assert_eq!(Executor::first(&plan), Some(Point::Heading(0)));
    let at = Point::Step(Place { phase: 0, step: 0 });
    assert_eq!(real.next(&plan, Point::Heading(0), false), Some(at));
    assert_eq!(real.next(&plan, at, true), None);
    let skipped = real.next(&plan, at, false);
    assert_eq!(skipped, Some(Point::Heading(1)));
    // A phase without steps still has its title said.
    assert_eq!(
        real.next(&plan, Point::Heading(1), false),
        Some(Point::Heading(2))
    );
    let last = Point::Step(Place { phase: 2, step: 0 });
    assert_eq!(real.next(&plan, Point::Heading(2), false), Some(last));
    assert_eq!(real.next(&plan, last, true), None);
    // A dry run shows what a hand-off would replace.
    let dry = Executor::new(
        Opts {
            dry: true,
            quiet: true,
            tty: false,
        },
        &c,
    );
    assert_eq!(dry.next(&plan, at, true), Some(Point::Heading(1)));
    let empty = Plan { phases: vec![] };
    assert_eq!(Executor::first(&empty), None);
}

#[test]
fn a_dry_run_writes_nothing() {
    let f = fresh("debian", Family::Apt);
    let mut c = defaults(&f);
    let opts = |dry| Opts {
        dry,
        quiet: false,
        tty: false,
    };
    let mut dry = Executor::new(opts(true), &c);
    let mut real = Executor::new(opts(false), &c);
    let env = StepAction::SetEnv {
        key: "K".to_string(),
        value: "V".to_string(),
    };
    assert!(matches!(
        dry.step(&env, &f, &c, &files()),
        Deed::Say { told: Told::Fine(t), ran: true }
            if t == "would set K=V in /box/config/punktfunk/host.env"
    ));
    assert!(matches!(
        real.step(&env, &f, &c, &files()),
        Deed::Env { key, value } if key == "K" && value == "V"
    ));
    let setting = StepAction::SetSetting {
        id: "clipboard".to_string(),
        to: SettingValue::Flag(true),
    };
    assert!(matches!(
        dry.step(&setting, &f, &c, &files()),
        Deed::Nothing { ran: true }
    ));
    assert!(matches!(
        real.step(&setting, &f, &c, &files()),
        Deed::Setting { .. }
    ));
    c.web_password = None;
    assert!(matches!(
        real.step(&StepAction::WebPassword, &f, &c, &files()),
        Deed::Nothing { ran: false }
    ));
    c.web_password = Some("correct-horse".to_string());
    assert!(matches!(
        dry.step(&StepAction::WebPassword, &f, &c, &files()),
        Deed::Say { told: Told::Fine(t), ran: true }
            if t == "would write your password to /box/config/punktfunk/web-password"
    ));
    assert!(matches!(
        dry.step(&StepAction::TrustCert, &f, &c, &files()),
        Deed::Say { told: Told::Plus(t), ran: true }
            if t.starts_with("certutil -A -d sql:/box/.pki/nssdb -n ")
                && t.ends_with(" -t C,, -i /box/config/punktfunk/native-cert.pem")
    ));
    let apt = |pkgs: &[&str]| StepAction::AptSwitch { pkgs: texts(pkgs) };
    assert!(matches!(
        dry.step(&apt(&["punktfunk-host"]), &f, &c, &files()),
        Deed::Run(Shell { spawn: false, cmd, .. })
            if cmd.starts_with("sudo apt install -y --allow-downgrades punktfunk-host")
    ));
    assert!(matches!(
        dry.step(&apt(&[]), &f, &c, &files()),
        Deed::Fail(e) if e.0.contains("apt channel offers no punktfunk packages")
    ));
    assert!(matches!(
        real.step(&apt(&[]), &f, &c, &files()),
        Deed::AptSwitch
    ));
    let gone = StepAction::RunIfPresent {
        program: "ujust".to_string(),
        cmd: "ujust x".to_string(),
        warn_if_missing: None,
    };
    assert!(matches!(
        dry.step(&gone, &f, &c, &files()),
        Deed::Run(Shell { spawn: false, .. })
    ));
    assert!(matches!(
        real.step(&gone, &f, &c, &files()),
        Deed::IfPresent { .. }
    ));
}

#[test]
fn what_became_of_a_file_is_told() {
    let env = |dry, written| tell_env(dry, written, "K", "V", "/p");
    assert!(matches!(env(true, false), Told::Fine(t) if t == "would set K=V in /p"));
    assert!(matches!(env(false, true), Told::Fine(t) if t == "K=V → /p"));
    assert!(matches!(env(false, false), Told::Warn(t) if t == "couldn't write /p"));
    assert!(matches!(
        tell_password(false, None, "/p"),
        Told::Fine(t) if t == "your password → /p"
    ));
    assert!(matches!(
        tell_password(false, Some("full"), "/p"),
        Told::Warn(t) if t == "couldn't write /p — full; the console will generate one instead"
    ));
}

#[test]
fn groups_ask_for_a_new_login() {
    let f = fresh("debian", Family::Apt);
    let c = defaults(&f);
    let mut e = Executor::new(
        Opts {
            dry: false,
            quiet: false,
            tty: true,
        },
        &c,
    );
    assert!(e.outcome.started && !e.outcome.relogin);
    let d = e.step(
        &StepAction::Run("sudo usermod -aG input \"$USER\"".to_string()),
        &f,
        &c,
        &files(),
    );
    assert!(matches!(d, Deed::Run(Shell { spawn: true, tty: true, .. })));
    assert!(e.outcome.relogin);
    assert!(e.start_units(&texts(&["punktfunk-host"]), false).is_err());
    assert!(!e.outcome.started);
}

#[test]
fn trusting_the_certificate_step_by_step() {
    let ctx = |started| TrustCtx {
        cert: "/c/cert.pem".to_string(),
        db: "/h/.pki/nssdb".to_string(),
        hint: "install nss".to_string(),
        started,
    };
    assert!(matches!(
        trust_cert(&ctx(true), TrustEvent::Begin),
        TrustDeed::AskCertutil
    ));
    assert!(matches!(
        trust_cert(&ctx(true), TrustEvent::HasCertutil(false)),
        TrustDeed::Done { told: Told::Warn(w), ran: false } if w.contains("install nss and re-run")
    ));
    assert!(matches!(
        trust_cert(&ctx(false), TrustEvent::HasCertutil(true)),
        TrustDeed::Done { ran: false, .. }
    ));
    assert!(matches!(
        trust_cert(&ctx(true), TrustEvent::HasCertutil(true)),
        TrustDeed::AwaitCert { script } if script.contains("'/c/cert.pem'")
    ));
    assert!(matches!(
        trust_cert(&ctx(true), TrustEvent::CertReady(true)),
        TrustDeed::AskDb { file } if file == "/h/.pki/nssdb/cert9.db"
    ));
    assert!(matches!(
        trust_cert(&ctx(true), TrustEvent::DbThere(false)),
        TrustDeed::Add { make_db: true, shown, .. }
            if shown == "certutil -A -d sql:/h/.pki/nssdb -n punktfunk-console -t C,, -i /c/cert.pem"
    ));
    assert!(matches!(
        trust_cert(&ctx(true), TrustEvent::Added(false)),
        TrustDeed::Done { told: Told::Warn(_), ran: true }
    ));
}

#[test]
fn families_read_their_own_files() {
    let apt = backend(Family::Apt);
    assert_eq!(
        apt.installed_pf(Some("punktfunk-host installed\npunktfunk-web config-files\npunktfunk-client installed\n")),
        texts(&["punktfunk-host", "punktfunk-client"])
    );
    assert_eq!(
        backend(Family::Dnf).installed_pf(Some("punktfunk punktfunk-web\n")),
        texts(&["punktfunk", "punktfunk-web"])
    );
    assert!(backend(Family::Pacman).installed_pf(None).is_empty());
    assert_eq!(
        backend(Family::Pacman).current_channel(Some("[core]\n[punktfunk-canary]\n"), true),
        Some(Channel::Canary)
    );
    assert_eq!(
        backend(Family::Pacman).current_channel(Some("[punktfunk]\n"), true),
        Some(Channel::Stable)
    );
    assert_eq!(backend(Family::Pacman).current_channel(Some("[core]\n"), true), None);
    assert_eq!(backend(Family::Flatpak).current_channel(None, true), None);
    assert_eq!(
        backend(Family::Dnf).base_pkgs(),
        texts(&["punktfunk", "punktfunk-web", "punktfunk-scripting"])
    );
}

#[test]
fn an_outro_without_a_console_names_no_address() {
    let lines: Vec<String> = report::uninstall_outro()
        .iter()
        .map(|t| {
            let mut s = String::new();
            told(&mut s, t);
            s
        })
        .collect();
    assert!(!lines.is_empty());
    assert!(!report::banner().is_empty());
    assert_ne!(LAN_BIND, LOOPBACK_BIND);
}

#[test]
fn a_catalogue_is_read_from_its_page() {
    let page = r#"{
        "updated": 12.5,
        "platforms": [
            {"install": ["never asked for"], "floor": "no id"},
            {"id": "debian", "install": ["one", 7, "sudo apt install x", null], "floor": 3},
            {"id": "debian", "install": ["a second entry is not reached"]},
            {"id": "windows", "floor": "Windows 11 22H2 (build 22621)", "beta": true},
            {"id": 5, "install": ["no text for an id"]},
            "not an entry",
            {"id": "odd", "install": "no list"}
        ]
    }"#;
    let cat = Catalogue::parse(page).unwrap();
    assert_eq!(cat.platforms.len(), 4);
    assert_eq!(install_lines(&cat, "debian"), ["one", "sudo apt install x"]);
    assert_eq!(floor(&cat, "debian"), "");
    assert_eq!(floor(&cat, "windows"), "Windows 11 22H2 (build 22621)");
    assert!(install_lines(&cat, "windows").is_empty());
    assert!(install_lines(&cat, "odd").is_empty());
    assert!(install_lines(&cat, "5").is_empty());
    assert!(!cat.is_fit());
    assert!(Catalogue::parse("{\"platforms\": [").is_none());
    assert!(Catalogue::parse("").is_none());
    assert!(Catalogue::parse("[]").unwrap().platforms.is_empty());
    assert!(Catalogue::parse("{\"platforms\": {}}").unwrap().platforms.is_empty());
}

#[test]
fn a_document_is_read_as_plain_values() {
    let doc = punktfunk::json::read(r#"{"b": [true, null, "x"], "a": -1.50, "b2": {}}"#).unwrap();
    let items = doc.member("b").unwrap().items().unwrap();
    assert_eq!(items.len(), 3);
    assert!(matches!(items[0], Json::Bool(true)));
    assert!(matches!(items[1], Json::Null));
    assert_eq!(items[2].as_text().map(String::as_str), Some("x"));
    assert!(items[2].items().is_none() && items[2].member("b").is_none());
    match doc.member("a") {
        Some(Json::Number(n)) => assert_eq!(n, "-1.5"),
        _ => panic!("a number is a number"),
    }
    assert!(matches!(doc.member("b2"), Some(Json::Object(o)) if o.is_empty()));
    assert!(doc.member("c").is_none());
    // Of two members of one name the later counts.
    let twice = punktfunk::json::read(r#"{"k": 1, "k": "two"}"#).unwrap();
    assert_eq!(twice.member("k").unwrap().as_text().map(String::as_str), Some("two"));
    assert!(punktfunk::json::read("{'k': 1}").is_none());
}

fn all_told(v: &[Told]) -> String {
    let mut out = String::new();
    for t in v {
        told(&mut out, t);
    }
    out
}

#[test]
fn what_comes_next_names_only_what_answers() {
    let mut f = fresh("arch", Family::Pacman);
    f.ip = Some("192.168.1.9".to_string());
    let mut c = defaults(&f);
    c.web_bind = LAN_BIND.to_string();
    let opts = Opts { dry: false, quiet: false, tty: true };
    let mut outcome = Executor::new(opts, &c).outcome;
    let mut seen = report::Checked {
        host_active: true,
        sockets: Some("UNCONN 0 0 *:9777 *:*".to_string()),
        has_web_server: true,
    };
    let said = all_told(&report::verify(&f, &c, &outcome, opts, &seen));
    assert!(said.contains("punktfunk-host is running"), "{said}");
    assert!(said.contains("listening on UDP 9777 (punktfunk/1)"), "{said}");
    assert!(said.contains("https://192.168.1.9:47992"), "{said}");
    assert!(said.contains(report::PASSWORD_READ), "{said}");
    assert!(!said.contains("log out and back in"), "{said}");

    c.web_bind = LOOPBACK_BIND.to_string();
    c.web_password = Some("hunter2hunter2".to_string());
    outcome.relogin = true;
    f.nvidia = Nvidia::NoDriver;
    seen.sockets = Some("UNCONN 0 0 *:97770 *:*".to_string());
    seen.host_active = false;
    let said = all_told(&report::verify(&f, &c, &outcome, opts, &seen));
    assert!(said.contains("punktfunk-host is not active"), "{said}");
    assert!(said.contains("nothing on UDP 9777 yet"), "{said}");
    assert!(said.contains("https://127.0.0.1:47992  (this machine only"), "{said}");
    assert!(said.contains("the one you typed") && !said.contains("hunter2"), "{said}");
    assert!(said.contains("log out and back in"), "{said}");
    assert!(said.contains("nothing can encode until it's installed"), "{said}");

    seen.has_web_server = false;
    let said = all_told(&report::verify(&f, &c, &outcome, opts, &seen));
    assert!(said.contains("The web console is NOT on this box"), "{said}");
    assert!(!said.contains("47992"), "{said}");

    let client = with_client(&f, false);
    let quiet = Executor::new(opts, &client).outcome;
    let said = all_told(&report::verify(&f, &client, &quiet, opts, &seen));
    assert!(said.contains("approve this device in that host's console"), "{said}");
    assert!(!said.contains("47992") && !said.contains("9777"), "{said}");
}

#[test]
fn an_editor_opens_on_what_stands_and_changes_it() {
    let mut s = screen();
    let q = editor(&s, Field::Gamestream);
    assert_eq!((q.options, q.initial), (texts(&["yes", "no"]), 1));
    answer_edit(&mut s, Field::Gamestream, Some(0));
    assert!(s.choices.toggles.gamestream);
    assert_eq!(editor(&s, Field::Gamestream).initial, 0);
    answer_edit(&mut s, Field::Gamestream, None);
    assert!(s.choices.toggles.gamestream);
    assert_eq!(editor(&s, Field::Channel).options, ["stable", "canary"]);
    answer_edit(&mut s, Field::Channel, Some(1));
    assert_eq!(editor(&s, Field::Channel).initial, 1);
    assert_eq!(editor(&s, Field::Components).initial, 0);
    answer_edit(&mut s, Field::Components, Some(2));
    assert!(!s.choices.components.host && s.choices.components.client);
    assert_eq!(editor(&s, Field::Components).initial, 2);
    answer_edit(&mut s, Field::Components, Some(1));
    assert!(s.choices.components.host && s.choices.components.client);
    // A shorter list moves a cursor past its end to its last row.
    let rows = s.items.len();
    s.cursor = rows - 1;
    answer_edit(&mut s, Field::Gamestream, Some(1));
    assert_eq!((s.cursor, s.items.len()), (rows - 1, rows));
    answer_edit(&mut s, Field::Components, Some(2));
    assert!(s.items.len() < rows);
    assert_eq!(s.cursor, s.items.len() - 1);
    answer_edit(&mut s, Field::Components, Some(1));
    assert_eq!(s.items.len(), rows);
    // These rows always open on "no".
    assert_eq!(editor(&s, Field::OmarchyTheme).initial, 1);
    assert_eq!(action_of(KeyStep::Run(Action::Install)), Some(Action::Install));
    assert_eq!(action_of(KeyStep::Cancel), None);
    assert_eq!(repo_channel_suffix(Channel::Canary), "-canary");
    assert_eq!(repo_channel_suffix(Channel::Stable), "");
}
