use punktfunk::power::{
    act, can_method, host_unit, judge_logind, probe, supported, ActPlan, PowerVerb, ProbeAnswer,
};
use punktfunk::update::Platform;

const UNIT: &str =
    "0::/user.slice/user-1000.slice/user@1000.service/app.slice/punktfunk-host.service\n";

#[test]
fn restart_needs_the_host_user_unit() {
    let unit =
        "0::/user.slice/user-1000.slice/user@1000.service/app.slice/punktfunk-host.service\n";
    assert_eq!(host_unit(unit).as_deref(), Some("punktfunk-host.service"));
    // A terminal, a system unit, or a session unit that merely starts the host.
    for other in [
        "0::/user.slice/user-1000.slice/user@1000.service/app.slice/app-foot.scope",
        "0::/system.slice/punktfunk-host.service",
        "0::/user.slice/user-1000.slice/user@1000.service/app.slice/punktfunk-kde-session.service",
        "",
    ] {
        assert_eq!(host_unit(other), None, "{other}");
    }
}

#[test]
fn only_a_plain_yes_is_an_offer() {
    assert!(judge_logind("yes").available);
    assert_eq!(judge_logind("yes").reason, None);
    assert!(!judge_logind("challenge").available);
    assert_eq!(
        judge_logind("na").reason.as_deref(),
        Some("this machine does not support it")
    );
    assert_eq!(
        judge_logind("per\"haps").reason.as_deref(),
        Some("logind answered \"per\\\"haps\"")
    );
}

#[test]
fn an_offered_restart_is_one_that_can_be_done() {
    for cgroup in [Some(UNIT), Some("0::/system.slice/x.service"), None] {
        let offered = probe(
            PowerVerb::Restart,
            &ProbeAnswer::Cgroup(cgroup.map(str::to_string)),
        );
        let plan = act(Platform::Linux, PowerVerb::Restart, cgroup);
        assert_eq!(offered.available, plan.is_ok());
    }
    assert!(matches!(
        act(Platform::Linux, PowerVerb::Restart, Some(UNIT)),
        Ok(ActPlan::RestartUnit(u)) if u == "punktfunk-host.service"
    ));
}

#[test]
fn each_platform_does_a_verb_its_own_way() {
    assert!(matches!(
        act(Platform::Linux, PowerVerb::Shutdown, None),
        Ok(ActPlan::Logind("PowerOff"))
    ));
    assert!(matches!(
        act(Platform::Windows, PowerVerb::Reboot, None),
        Ok(ActPlan::EndSystem { reboot: true })
    ));
    assert!(matches!(
        act(Platform::Windows, PowerVerb::Restart, None),
        Ok(ActPlan::ExitForRelaunch)
    ));
    assert_eq!(
        act(Platform::Other, PowerVerb::Sleep, None).err().as_deref(),
        Some("not supported on this host platform")
    );
    assert!(supported(Platform::Linux));
    assert!(!supported(Platform::Other));
    assert_eq!(can_method(PowerVerb::Sleep), Some("CanSuspend"));
    assert_eq!(can_method(PowerVerb::Restart), None);
    let w = |can_sleep, service_child| ProbeAnswer::Windows { can_sleep, service_child };
    assert!(!probe(PowerVerb::Sleep, &w(false, true)).available);
    assert!(probe(PowerVerb::Reboot, &w(false, false)).available);
    assert!(!probe(PowerVerb::Restart, &w(true, false)).available);
    assert_eq!(
        probe(PowerVerb::Sleep, &ProbeAnswer::NoLogind("no bus".to_string()))
            .reason
            .as_deref(),
        Some("no logind: no bus")
    );
}
