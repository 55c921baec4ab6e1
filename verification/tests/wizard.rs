use punktfunk::setup::choices::{LAN_BIND, LOOPBACK_BIND};
use punktfunk::setup::platform::windows::{
    Artifact, Installed, NetworkAnswer, NetworkInfo, TaskState, WinChoices, WinFacts,
};
use punktfunk::setup::ui::Told;
use punktfunk::setup_win::wizard::{
    advance, back, bar_target, bind_answer, config_row, configure_page, divided, done_page,
    fail_line, go_label, install_ended, install_line, install_page, log_line, network_answer,
    network_page, option_chosen, password_wanted, phases_seen, press, recommended_network,
    run_steps, stacked, step_title, stepper, stepper_at, tri_answer, welcome_page, Control, Editor,
    InstallPhase, LineKind, Nav, Run, Share, WelcomeButton, WizStep, PASSWORD_MASK,
};

fn facts() -> WinFacts {
    WinFacts {
        os_build: 26_100,
        arch: "x64".to_string(),
        installed: None,
        client_installed: None,
        inno_uninstaller: false,
        web_password_present: false,
        scripting_task: TaskState::Absent,
        web_task: TaskState::Absent,
        tray_autostart: false,
        vulkan_layer_registered: false,
        competing_hosts: vec![],
        mgmt_bind_set: false,
        networks: vec![
            NetworkInfo {
                name: "Home".to_string(),
                is_public: false,
            },
            NetworkInfo {
                name: "Cafe".to_string(),
                is_public: true,
            },
        ],
    }
}

fn choices() -> WinChoices {
    WinChoices {
        dir: None,
        install_driver: true,
        install_gamepad: true,
        install_hdr_layer: true,
        gamestream: None,
        allow_public_fw: None,
        start_service: true,
        tray_autostart: true,
        desktop_icon: false,
        web_bind: None,
        network: NetworkAnswer::Skip,
        web_password: Some("s3cret".to_string()),
    }
}

fn run(uninstall: bool, custom: bool) -> Run {
    Run {
        artifact: Artifact::Host,
        uninstall,
        custom,
        install: InstallPhase::Idle,
    }
}

fn all_steps() -> Vec<WizStep> {
    vec![
        WizStep::Welcome,
        WizStep::Configure,
        WizStep::Network,
        WizStep::Install,
        WizStep::Done,
    ]
}

#[test]
fn the_path_of_a_run() {
    assert_eq!(
        run_steps(&run(true, true), &all_steps()),
        vec![WizStep::Welcome, WizStep::Install, WizStep::Done]
    );
    assert_eq!(run_steps(&run(false, true), &all_steps()), all_steps());
    let path = run_steps(&run(false, false), &all_steps());
    assert!(!path.contains(&WizStep::Configure));
    assert_eq!(go_label(&path, WizStep::Welcome), "Continue");
    assert_eq!(go_label(&path, WizStep::Network), "Install");
    assert_eq!(go_label(&path, WizStep::Done), "Continue");
    assert_eq!(step_title(WizStep::Install, true), "Uninstall");
    assert_eq!(step_title(WizStep::Install, false), "Install");
    assert_eq!(stepper_at(&path, WizStep::Network), 1);
    assert_eq!(stepper_at(&path, WizStep::Configure), 0);
}

#[test]
fn going_on_and_back() {
    let path = run_steps(&run(false, true), &all_steps());
    let a = advance(&path, WizStep::Configure, InstallPhase::Idle, true);
    assert_eq!(
        a.to,
        Some(Nav {
            step: WizStep::Network,
            forward: true
        })
    );
    assert!(a.recommend_private && !a.start);
    assert_eq!(
        back(&path, WizStep::Network),
        Some(Nav {
            step: WizStep::Configure,
            forward: false
        })
    );
    assert_eq!(back(&path, WizStep::Welcome), None);
    let go = advance(&path, WizStep::Network, InstallPhase::Idle, false);
    assert!(go.start);
    let again = advance(&path, WizStep::Network, InstallPhase::Running, false);
    assert_eq!((again.to, again.start), (None, false));
    assert_eq!(
        advance(&path, WizStep::Done, InstallPhase::Finished, false)
            .to
            .unwrap()
            .step,
        WizStep::Done
    );
    assert_eq!(install_ended(false), (InstallPhase::Failed, None));
    assert_eq!(
        install_ended(true).1,
        Some(Nav {
            step: WizStep::Done,
            forward: true
        })
    );
    assert!(press(&run(false, false), WelcomeButton::Uninstall).uninstall);
    assert!(press(&run(false, false), WelcomeButton::Reconfigure).custom);
    assert_eq!(press(&run(false, false), WelcomeButton::Go), run(false, false));
    assert!(option_chosen(&run(false, true), true));
}

#[test]
fn dots_and_the_bar() {
    let d = stepper(3, 1);
    assert!(d[0].filled && d[1].filled && !d[2].filled);
    assert!(d[1].current && !d[0].current);
    assert!(d[0].left_hidden && d[2].right_hidden && !d[1].left_hidden);
    assert!(d[0].right_lit && d[1].left_lit && !d[1].right_lit);
    assert_eq!(bar_target(InstallPhase::Idle, 3, 4), Share { part: 0, whole: 8 });
    assert_eq!(bar_target(InstallPhase::Running, 0, 4), Share { part: 0, whole: 8 });
    assert_eq!(bar_target(InstallPhase::Running, 3, 4), Share { part: 5, whole: 8 });
    assert_eq!(bar_target(InstallPhase::Finished, 0, 0), Share { part: 2, whole: 2 });
}

#[test]
fn lines_of_the_log() {
    let log = vec![
        log_line(&Told::Say("Files".to_string())),
        log_line(&Told::Plus("reg add".to_string())),
        log_line(&Told::Fine("ok".to_string())),
        log_line(&Told::Warn("hm".to_string())),
        log_line(&Told::Detail("d".to_string())),
        log_line(&Told::Line("l".to_string())),
        log_line(&Told::Blank),
        fail_line("broke"),
    ];
    let shown: Vec<String> = log.iter().map(install_line).collect();
    assert_eq!(
        shown,
        vec!["Files", "  + reg add", "✓ ok", "⚠ hm", "  d", "l", "", "✗ broke"]
    );
    assert_eq!(log[6].kind, LineKind::Text);
    assert_eq!(phases_seen(&log), 1);
    let mut r = run(true, false);
    assert_eq!(install_page(&r).status, "Removing punktfunk…");
    r.uninstall = false;
    r.install = InstallPhase::Running;
    let p = install_page(&r);
    assert!(p.turning && !p.closable);
    assert_eq!(p.status, "Installing punktfunk…");
    r.install = InstallPhase::Failed;
    assert!(install_page(&r).closable);
}

#[test]
fn the_welcome_of_a_fresh_and_of_a_managed_box() {
    let p = welcome_page(&facts(), Artifact::Host, false);
    assert_eq!(p.subtitle, None);
    assert_eq!(p.buttons, vec![WelcomeButton::Go]);
    assert!(p.options.is_some());
    assert!(password_wanted(&facts(), Artifact::Host));
    assert!(!password_wanted(&facts(), Artifact::Client));
    let mut f = facts();
    f.installed = Some(Installed {
        version: Some("0.36.0".to_string()),
        location: None,
    });
    let p = welcome_page(&f, Artifact::Host, false);
    assert_eq!(p.subtitle.as_deref(), Some("0.36.0 · host installed"));
    assert_eq!(p.buttons, vec![WelcomeButton::Uninstall, WelcomeButton::Reconfigure]);
    assert!(p.options.is_none());
    assert!(!password_wanted(&f, Artifact::Host));
    let p = welcome_page(&f, Artifact::Host, true);
    assert_eq!(p.buttons, vec![WelcomeButton::Uninstall]);
    assert!(p.sentence.starts_with("This removes punktfunk"));
    assert!(welcome_page(&f, Artifact::Client, false).options.is_some());
}

#[test]
fn rows_and_what_their_answers_set() {
    assert!(matches!(config_row(&Editor::Toggle(true), false), Control::Switch(true)));
    assert!(matches!(
        config_row(&Editor::TriState(Some(false)), false),
        Control::Combo { selected: 2, .. }
    ));
    for (bind, at) in [
        (None, 0usize),
        (Some(LOOPBACK_BIND), 1),
        (Some(LAN_BIND), 2),
        (Some("100.64.0.3"), 3),
    ] {
        match config_row(&Editor::Bind(bind.map(str::to_string)), false) {
            Control::Bind { options, selected, typed, enabled } => {
                assert_eq!((options.len(), selected), (4, at));
                assert_eq!(enabled, at == 3);
                assert_eq!(typed, if at == 3 { "100.64.0.3" } else { "" });
                if at < 3 {
                    assert_eq!(bind_answer(at).as_deref(), bind);
                }
            }
            _ => panic!(),
        }
    }
    assert_eq!(bind_answer(3).as_deref(), Some(""));
    assert!(matches!(
        config_row(&Editor::Password(Some("pw".to_string())), false),
        Control::Password { shown: false, toggle: "Show", .. }
    ));
    assert!(stacked(&Editor::Password(None)) && stacked(&Editor::Bind(None)));
    assert!(!stacked(&Editor::Toggle(true)));
    assert_eq!(tri_answer(0), None);
    assert_eq!(tri_answer(1), Some(true));
    assert_eq!(tri_answer(2), Some(false));
    let v = configure_page(
        &vec!["Drivers".to_string(), "Network".to_string(), "Console".to_string()],
        true,
    );
    assert_eq!(
        v.iter().map(|p| (p.right, p.lead)).collect::<Vec<_>>(),
        vec![(false, false), (true, true), (false, false)]
    );
    assert!(!divided(0, false) && divided(0, true) && divided(1, false));
}

#[test]
fn the_network_page_names_its_network() {
    let p = network_page(&facts(), &NetworkAnswer::Skip);
    assert_eq!((p.name.as_str(), p.selected), ("Cafe", 2));
    assert_eq!(p.heading, "'Cafe' is set to Public");
    assert_eq!(
        p.options[0],
        "This is my home network — make 'Cafe' Private (recommended)"
    );
    assert!(matches!(recommended_network(&facts()), NetworkAnswer::MakePrivate(n) if n == "Cafe"));
    let mut none = facts();
    none.networks = vec![];
    assert_eq!(network_page(&none, &NetworkAnswer::OpenPublicRules).name, "this network");
    assert!(matches!(recommended_network(&none), NetworkAnswer::MakePrivate(n) if n.is_empty()));
    let named = NetworkAnswer::MakePrivate("Lab".to_string());
    assert_eq!(network_page(&facts(), &named).name, "Lab");
    assert!(matches!(network_answer(0, "Lab"), NetworkAnswer::MakePrivate(n) if n == "Lab"));
    assert!(matches!(network_answer(1, "Lab"), NetworkAnswer::OpenPublicRules));
    assert!(matches!(network_answer(2, "Lab"), NetworkAnswer::Skip));
}

#[test]
fn the_last_page_masks_the_password() {
    let c = choices();
    let p = done_page(&run(false, false), true, &facts(), &c, &c, false, false);
    assert_eq!(p.headline, "The punktfunk host is installed and streaming.");
    let card = p.password.unwrap();
    assert_eq!((card.shown.as_str(), card.toggle, card.copy), (PASSWORD_MASK, "Show", "Copy"));
    assert_eq!(p.next.len(), 2);
    assert_eq!(p.next[1].uri, "https://docs.punktfunk.unom.io/docs/install-client");
    assert_eq!(
        p.help.as_deref(),
        Some("https://docs.punktfunk.unom.io/docs/troubleshooting")
    );
    assert!(p.footnotes.iter().all(|l| l.trim() == l));
    let shown = done_page(&run(false, false), true, &facts(), &c, &c, true, true);
    assert_eq!(shown.password.unwrap().shown, "s3cret");
    let again = done_page(&run(false, false), false, &facts(), &c, &c, true, true);
    assert!(again.password.is_none(), "only a fresh host shows it");
    assert_eq!(again.headline, "The punktfunk host is up to date.");
    let gone = done_page(&run(true, false), true, &facts(), &c, &c, true, false);
    assert!(gone.password.is_none() && gone.next.is_empty() && gone.help.is_none());
    assert!(gone.kept.unwrap().contains("%ProgramData%\\punktfunk"));
}
