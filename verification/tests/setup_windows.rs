use punktfunk::setup::platform::windows::args::{InnoArgs, Silence, TaskFlag};
use punktfunk::setup::platform::windows::plan::{
    build, join_argv, WinAction, WinPlan, MIN_HOST_BUILD,
};
use punktfunk::setup::platform::windows::report;
use punktfunk::setup::platform::windows::{
    Artifact, Installed, NetworkAnswer, NetworkInfo, TaskState, WinChoices, WinFacts,
};
use punktfunk::setup::platform::Catalogue;
use punktfunk::setup::ui::Told;

fn parse(args: &[&str]) -> InnoArgs {
    InnoArgs::parse(&args.iter().map(|s| (*s).to_string()).collect::<Vec<_>>())
}

#[test]
fn the_fielded_updater_spawn_parses_clean() {
    let a = parse(&[
        "/VERYSILENT",
        "/SUPPRESSMSGBOXES",
        "/NORESTART",
        "/SP-",
        r"/LOG=C:\ProgramData\punktfunk\logs\update-0.36.0.log",
    ]);
    assert_eq!(a.silence, Silence::VerySilent);
    assert!(a.suppress_msgboxes);
    assert_eq!(
        a.log.unwrap().as_str(),
        r"C:\ProgramData\punktfunk\logs\update-0.36.0.log"
    );
    assert!(a.unknown.is_empty());
    assert!(a.rest.is_empty());
}

#[test]
fn flags_are_case_insensitive_and_silent_never_downgrades() {
    let a = parse(&["/verysilent", "/silent"]);
    assert_eq!(a.silence, Silence::VerySilent);
    let b = parse(&["/Silent"]);
    assert_eq!(b.silence, Silence::Silent);
    assert!(a.silence.is_silent() && b.silence.is_silent());
    assert!(!Silence::Interactive.is_silent());
}

#[test]
fn mergetasks_parses_selection_and_deselection() {
    let a = parse(&[r#"/MERGETASKS="allowpublicfw,!trayicon""#]);
    assert_eq!(
        a.merge_tasks,
        vec![
            TaskFlag {
                name: "allowpublicfw".into(),
                selected: true
            },
            TaskFlag {
                name: "trayicon".into(),
                selected: false
            },
        ]
    );
}

#[test]
fn tasks_replaces_while_mergetasks_merges() {
    let a = parse(&["/TASKS=gamestream"]);
    assert_eq!(a.tasks.unwrap().len(), 1);
    assert!(a.merge_tasks.is_empty());
}

#[test]
fn an_unknown_slash_flag_is_collected_never_fatal() {
    let a = parse(&["/VERYSILENT", "/FUTUREFLAG=2", "/NOCANCEL"]);
    assert_eq!(a.silence, Silence::VerySilent);
    assert_eq!(a.unknown, ["/FUTUREFLAG=2", "/NOCANCEL"]);
}

#[test]
fn engine_flags_pass_through_in_rest() {
    let a = parse(&["--dry-run", "/VERYSILENT", "--facts", "box.json"]);
    assert_eq!(a.rest, ["--dry-run", "--facts", "box.json"]);
    assert_eq!(a.silence, Silence::VerySilent);
}

#[test]
fn dir_and_quoted_log_values_unquote() {
    let a = parse(&[r#"/DIR="C:\Games\pf""#, r#"/LOG="C:\a b.log""#]);
    assert_eq!(a.dir.unwrap().as_str(), r"C:\Games\pf");
    assert_eq!(a.log.unwrap().as_str(), r"C:\a b.log");
}

fn facts() -> WinFacts {
    WinFacts {
        os_build: MIN_HOST_BUILD,
        arch: "x64".to_string(),
        installed: None,
        client_installed: None,
        inno_uninstaller: false,
        web_password_present: false,
        scripting_task: TaskState::Absent,
        web_task: TaskState::Absent,
        tray_autostart: false,
        vulkan_layer_registered: false,
        competing_hosts: vec![],
        mgmt_bind_set: false,
        networks: vec![],
    }
}

fn choices() -> WinChoices {
    WinChoices {
        dir: None,
        install_driver: true,
        install_gamepad: true,
        install_hdr_layer: true,
        gamestream: None,
        allow_public_fw: None,
        start_service: true,
        tray_autostart: true,
        desktop_icon: false,
        web_bind: None,
        network: NetworkAnswer::Skip,
        web_password: Some("s3cret-horse".to_string()),
    }
}

const KEY: &str = "HKLM\\SOFTWARE\\Uninstall\\host_is1";

fn catalogue() -> Catalogue {
    Catalogue { platforms: vec![] }
}

fn host(f: &WinFacts, c: &WinChoices, uninstall: bool) -> WinPlan {
    build(&catalogue(), f, c, Artifact::Host, uninstall, KEY)
}

#[test]
fn an_old_windows_is_refused_before_anything() {
    let mut f = facts();
    f.os_build = MIN_HOST_BUILD - 1;
    let p = host(&f, &choices(), false);
    assert_eq!(p.steps().len(), 1);
    assert!(matches!(p.steps()[0], WinAction::Refuse(_)));
    let client = build(&catalogue(), &f, &choices(), Artifact::Client, false, KEY);
    assert!(!client.steps().iter().any(|s| matches!(s, WinAction::Refuse(_))));
}

#[test]
fn the_password_is_no_part_of_a_plan() {
    let p = host(&facts(), &choices(), false);
    assert!(p.commands().iter().all(|c| !c.contains("s3cret")));
    assert!(p
        .steps()
        .iter()
        .any(|s| matches!(s, WinAction::WebSetup { fresh_password: true, .. })));
}

#[test]
fn an_upgrade_stops_the_host_before_it_copies() {
    let mut f = facts();
    f.installed = Some(Installed {
        version: Some("0.35.0".to_string()),
        location: None,
    });
    let p = host(&f, &choices(), false);
    let steps = p.steps();
    let stop = steps
        .iter()
        .position(|s| matches!(s, WinAction::StopHostRuntime { .. }))
        .expect("a stop");
    let copy = steps
        .iter()
        .position(|s| matches!(s, WinAction::DeployFiles { .. }))
        .expect("a copy");
    assert!(stop < copy);
}

#[test]
fn a_network_is_made_private_only_by_consent() {
    let mut f = facts();
    f.networks = vec![NetworkInfo {
        name: "Cafe".to_string(),
        is_public: true,
    }];
    let made = |c: &WinChoices| {
        host(&f, c, false)
            .steps()
            .iter()
            .any(|s| matches!(s, WinAction::MakeNetworkPrivate { .. }))
    };
    assert!(!made(&choices()));
    let mut c = choices();
    c.network = NetworkAnswer::MakePrivate("Cafe".to_string());
    assert!(made(&c));
    assert_eq!(f.public_networks(), vec!["Cafe".to_string()]);
}

#[test]
fn an_uninstall_is_lenient_throughout() {
    let p = host(&facts(), &choices(), true);
    assert!(!p.steps().is_empty());
    assert!(!p.steps().iter().any(|s| matches!(s, WinAction::Run(_) | WinAction::Refuse(_))));
    let c = build(&catalogue(), &facts(), &choices(), Artifact::Client, true, KEY);
    assert!(!c.steps().iter().any(|s| matches!(s, WinAction::Run(_))));
}

#[test]
fn a_second_streaming_host_needs_coexistence() {
    let mut f = facts();
    f.competing_hosts = vec!["Sunshine".to_string()];
    assert!(f.needs_coexistence());
    f.mgmt_bind_set = true;
    assert!(!f.needs_coexistence());
}

#[test]
fn only_arguments_with_spaces_are_quoted() {
    assert_eq!(
        join_argv(&vec!["reg".to_string(), "a b".to_string(), "/f".to_string()]),
        "reg \"a b\" /f"
    );
    assert_eq!(join_argv(&vec!["x".to_string(), String::new()]), "x ");
    assert_eq!(join_argv(&vec![]), "");
}

#[test]
fn reports_say_what_they_should() {
    let mut f = facts();
    f.competing_hosts = vec!["Sunshine".to_string()];
    let text: Vec<String> = report::footnotes(&f, &choices())
        .iter()
        .chain(report::outro(&f, &choices(), Artifact::Host).iter())
        .chain(report::detected(&f, Artifact::Host).iter())
        .chain(report::choices_summary(&choices(), Artifact::Host).iter())
        .map(|t| match t {
            Told::Say(m)
            | Told::Fine(m)
            | Told::Warn(m)
            | Told::Plus(m)
            | Told::Detail(m)
            | Told::Line(m) => m.clone(),
            Told::Blank => String::new(),
        })
        .collect();
    assert!(!text.is_empty());
    assert!(text.iter().any(|l| l.contains("Sunshine")), "{text:?}");
}

#[test]
fn a_client_uninstall_takes_back_what_the_install_laid_down() {
    let mut with_icon = choices();
    with_icon.desktop_icon = true;
    let install = build(&catalogue(), &facts(), &with_icon, Artifact::Client, false, KEY);
    // Whether there was an icon is not asked.
    let undo = build(&catalogue(), &facts(), &choices(), Artifact::Client, true, KEY);
    let undo = undo.steps();
    let mut seen = 0;
    for step in install.steps() {
        let back = match step {
            WinAction::Shortcut { link, .. } => undo
                .iter()
                .any(|u| matches!(u, WinAction::DeleteFiles { paths } if paths.contains(link))),
            WinAction::PathAdd { machine, dir } => undo.iter().any(
                |u| matches!(u, WinAction::PathRemove { machine: m, dir: d } if m == machine && d == dir),
            ),
            WinAction::ArpRegister { key, .. } => undo
                .iter()
                .any(|u| matches!(u, WinAction::ArpRemove { key: k } if k == key)),
            WinAction::DeployFiles { dest } => undo
                .iter()
                .any(|u| matches!(u, WinAction::RemoveFiles { dir } if dir == dest)),
            _ => continue,
        };
        assert!(back);
        seen += 1;
    }
    assert_eq!(seen, 6, "three links, the path entry, the program and its files");
}
