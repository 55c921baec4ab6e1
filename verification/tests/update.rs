use punktfunk::update::{
    apply_support, check_serial, classify_failure, failed_record, knob_disables, opt_in_hint_due,
    reconcile_at_boot, source_newer, ApplyAsk, ApplyEnv, ApplyError, ApplySupport, Checked, FeedError, FloorEntry, FloorFile,
    ForceError, InstallKind, JobStage, Manifest, Platform, Reconciled, Runtime, AUTO_REFRESH_AFTER_NS,
    FORCE_MIN_INTERVAL_NS, STALE_AFTER_SECS, Reserved, WindowsAsset,
};

#[test]
fn floor_roundtrip_and_monotonicity() {
    let mut f = FloorFile::new();
    assert_eq!(f.load_floor("stable"), 0);
    f.store_floor("stable", 100);
    assert_eq!(f.load_floor("stable"), 100);
    f.store_floor("stable", 50);
    assert_eq!(f.load_floor("stable"), 100);
    f.store_floor("canary", 7);
    assert_eq!(f.load_floor("canary"), 7);
    assert_eq!(f.load_floor("stable"), 100);
}

#[test]
fn corrupt_floor_file_reads_as_zero() {
    // A file that cannot be read is an empty one.
    let mut f = FloorFile::new();
    assert_eq!(f.load_floor("stable"), 0);
    assert!(f.store_floor("stable", 5));
    assert_eq!(f.load_floor("stable"), 5);
    assert!(!f.store_floor("stable", 5));
    let f = FloorFile {
        entries: vec![FloorEntry {
            channel: "canary".to_string(),
            serial: 9,
        }],
    };
    assert_eq!(f.load_floor("canary"), 9);
}

#[test]
fn empty_channel_is_benign_only_until_a_manifest_has_been_seen() {
    let (err, not_published) = classify_failure(&FeedError::NotPublished, false);
    assert_eq!(err, None);
    assert!(not_published);

    let (err, not_published) = classify_failure(&FeedError::NotPublished, true);
    assert_eq!(
        err.as_deref(),
        Some("no release has been published on this channel yet")
    );
    assert!(!not_published);

    for had_manifest in [false, true] {
        let (err, not_published) = classify_failure(
            &FeedError::Failed("feed returned HTTP 500".into()),
            had_manifest,
        );
        assert_eq!(err.as_deref(), Some("feed returned HTTP 500"));
        assert!(!not_published);
    }
}

const NOW: u64 = 1_800_000_000;

fn checked(version: &str, serial: u64) -> Checked {
    Checked {
        manifest: Manifest {
            version: version.to_string(),
            serial,
            has_windows_host: true,
            has_windows_host_arm64: false,
        },
        fetched_unix: NOW,
    }
}

#[test]
fn stale_math() {
    let mk = |serial| {
        let mut rt = Runtime::new();
        rt.refreshed(checked("0.23.0", serial), false, None, false, 0);
        rt
    };
    assert!(!mk(NOW).stale(NOW));
    assert!(mk(NOW - STALE_AFTER_SECS - 10).stale(NOW));
    assert!(!Runtime::new().stale(NOW));
}

#[test]
fn a_source_build_is_current_only_when_git_says_so() {
    // An unanswered fetch is not "up to date": the Deck keeps its last count and the
    // console shows no update rather than promising one it cannot check.
    assert!(source_newer(Some(3)));
    assert!(!source_newer(Some(0)));
    assert!(!source_newer(None));
}

#[test]
fn a_version_is_announced_once() {
    let mut rt = Runtime::new();
    assert!(rt.refreshed(checked("2.0", 1), false, None, true, 1));
    assert!(!rt.refreshed(checked("2.0", 1), false, None, true, 2));
    assert!(rt.refreshed(checked("2.1", 2), false, None, true, 3));
    assert!(!rt.refreshed(checked("2.2", 3), false, None, false, 4));
    assert_eq!(rt.announced.as_deref(), Some("2.1"));
    // A source build goes by its commit count, and keeps it across a failed fetch.
    let mut src = Runtime::new();
    assert!(!src.refreshed(checked("2.0", 1), true, Some(0), true, 1));
    src.refresh_failed(&FeedError::Failed("off".to_string()), Some(4), 2);
    assert_eq!(src.last_error.as_deref(), Some("off"));
    assert!(src.refreshed(checked("2.0", 1), true, None, false, 3));
    assert_eq!(src.last_error, None);
    src.refresh_failed(&FeedError::NotPublished, None, 5);
    assert!(!src.not_published);
}

#[test]
fn an_older_serial_is_refused() {
    assert!(check_serial(10, 10).is_ok());
    assert!(check_serial(11, 10).is_ok());
    assert!(check_serial(9, 10).is_err());
}

fn env(kind: InstallKind) -> ApplyEnv {
    ApplyEnv {
        platform: Platform::Linux,
        kind,
        disabled: false,
        omarchy: false,
        helper_installed: true,
        opted_in: true,
        pacman_opted_in: true,
    }
}

#[test]
fn support_by_install() {
    assert_eq!(apply_support(&env(InstallKind::Apt)).as_str(), "full");
    assert_eq!(apply_support(&env(InstallKind::RpmOstree)).as_str(), "staged");
    assert_eq!(apply_support(&env(InstallKind::Other)).as_str(), "notify");
    let mut e = env(InstallKind::Pacman);
    assert_eq!(apply_support(&e), ApplySupport::Full);
    e.pacman_opted_in = false;
    assert_eq!(apply_support(&e), ApplySupport::Notify);
    e.opted_in = false;
    assert!(opt_in_hint_due(&e));
    e.omarchy = true;
    assert!(!opt_in_hint_due(&e));
    let mut w = env(InstallKind::WindowsInstaller);
    w.platform = Platform::Windows;
    assert_eq!(apply_support(&w), ApplySupport::Full);
    w.disabled = true;
    assert_eq!(apply_support(&w), ApplySupport::Notify);
    assert!(knob_disables(Some("off")));
    assert!(knob_disables(Some("0")));
    assert!(knob_disables(Some("false")));
    assert!(!knob_disables(Some("no")));
    assert!(!knob_disables(None));
}

fn ask() -> ApplyAsk {
    ApplyAsk {
        force: false,
        session_active: false,
        still_applying: false,
        newer: true,
        arm64: false,
        now_unix: NOW,
    }
}

fn refused(r: Result<Reserved, ApplyError>) -> Option<ApplyError> {
    r.err()
}

#[test]
fn every_refusal_of_an_apply() {
    let e = env(InstallKind::Apt);
    let mut rt = Runtime::new();
    assert_eq!(refused(rt.start_apply(&e, &ask())), Some(ApplyError::NothingToApply));
    rt.refreshed(checked("2.0", 1), false, None, true, 1);
    let mut off = e;
    off.disabled = true;
    assert_eq!(refused(rt.start_apply(&off, &ask())), Some(ApplyError::Disabled));
    assert_eq!(
        refused(rt.start_apply(&env(InstallKind::Other), &ask())),
        Some(ApplyError::Unsupported)
    );
    let mut a = ask();
    a.session_active = true;
    assert_eq!(refused(rt.start_apply(&e, &a)), Some(ApplyError::SessionActive));
    a.force = true;
    a.newer = false;
    assert_eq!(refused(rt.start_apply(&e, &a)), Some(ApplyError::NothingToApply));
    a.newer = true;
    let reserved = rt.start_apply(&e, &a).ok().unwrap();
    assert_eq!(reserved.target_version, "2.0");
    assert_eq!(reserved.serial, 1);
    assert_eq!(rt.job.as_ref().unwrap().target_version, "2.0");
    assert_eq!(rt.job.as_ref().unwrap().stage, JobStage::Applying);
    assert_eq!(refused(rt.start_apply(&e, &a)), Some(ApplyError::JobRunning));
    assert!(!rt.applying_from_intent(true));
    rt.apply_ended(true);
    assert!(rt.job.is_some());
    rt.apply_ended(false);
    assert!(rt.applying_from_intent(true));
    // The other machine's installer is the wrong program.
    let mut w = env(InstallKind::WindowsInstaller);
    w.platform = Platform::Windows;
    let mut arm = ask();
    arm.arm64 = true;
    assert_eq!(refused(rt.start_apply(&w, &arm)), Some(ApplyError::NothingToApply));
    let reserved = rt.start_apply(&w, &ask()).ok().unwrap();
    assert_eq!(reserved.asset, Some(WindowsAsset::X64));
    assert_eq!(rt.job.as_ref().unwrap().stage, JobStage::Downloading);
    rt.apply_ended(false);
    let mut both = checked("3.0", 9);
    both.manifest.has_windows_host_arm64 = true;
    rt.refreshed(both, false, None, true, 2);
    let reserved = rt.start_apply(&w, &arm).ok().unwrap();
    assert_eq!(reserved.asset, Some(WindowsAsset::Arm64));
    assert_eq!((reserved.target_version.as_str(), reserved.serial), ("3.0", 9));
}

#[test]
fn checks_are_spaced() {
    let mut rt = Runtime::new();
    assert_eq!(rt.force_check(0, true), Err(ForceError::Disabled));
    assert_eq!(rt.force_check(0, false), Ok(()));
    assert_eq!(
        rt.force_check(FORCE_MIN_INTERVAL_NS - 1, false),
        Err(ForceError::TooSoon)
    );
    assert!(rt.refreshing);
    rt.refreshed(checked("2.0", 1), false, None, false, 5);
    assert!(!rt.maybe_refresh(AUTO_REFRESH_AFTER_NS, false));
    assert!(!rt.maybe_refresh(AUTO_REFRESH_AFTER_NS + 5, true));
    assert!(rt.maybe_refresh(AUTO_REFRESH_AFTER_NS + 5, false));
    assert!(!rt.maybe_refresh(AUTO_REFRESH_AFTER_NS * 3, false), "one at a time");
}

#[test]
fn an_accepted_manifest_raises_the_floor() {
    let mut f = FloorFile::new();
    assert_eq!(f.accept("stable", 7).ok(), Some(true));
    assert_eq!(f.accept("stable", 7).ok(), Some(false));
    match f.accept("stable", 6) {
        Err(e @ FeedError::Failed(_)) => {
            assert!(e.message().contains('6') && e.message().contains('7'), "{}", e.message());
        }
        _ => panic!("an older manifest is no update"),
    }
    assert_eq!(f.load_floor("stable"), 7);
    assert_eq!(f.load_floor("canary"), 0);
    assert_eq!(f.accept("canary", 1).ok(), Some(true));
    assert_eq!(f.load_floor("stable"), 7);
}

#[test]
fn a_job_is_followed_to_its_record() {
    let mut rt = Runtime::new();
    rt.at_stage(JobStage::Applying);
    rt.progress(1, None);
    assert!(rt.job.is_none(), "there is no job to follow");
    rt.refreshed(checked("2.0", 1), false, None, true, 1);
    let mut w = env(InstallKind::WindowsInstaller);
    w.platform = Platform::Windows;
    assert!(rt.start_apply(&w, &ask()).is_ok());
    rt.progress(512, Some(1024));
    rt.at_stage(JobStage::Applying);
    let job = rt.job.as_ref().unwrap();
    assert_eq!((job.received_bytes, job.total_bytes), (512, Some(1024)));
    assert_eq!(job.stage, JobStage::Applying);
    assert_eq!(job.target_version, "2.0");

    let r = failed_record("1.0", "2.0", "download", "no route", NOW);
    assert!(!r.ok && !r.staged);
    assert_eq!((r.from.as_str(), r.to.as_str()), ("1.0", "2.0"));
    assert_eq!((r.stage.as_deref(), r.error.as_deref()), (Some("download"), Some("no route")));
    assert_eq!((r.finished_unix, r.log_path), (NOW, None));
}

#[test]
fn a_boot_closes_what_ended() {
    let closing = |r| {
        let c = reconcile_at_boot(r);
        (c.settle, c.announce)
    };
    assert_eq!(closing(Reconciled::Nothing), (false, false));
    assert_eq!(closing(Reconciled::StillApplying), (false, false));
    assert_eq!(closing(Reconciled::Success), (true, true));
    assert_eq!(closing(Reconciled::Failed), (true, false));
}
