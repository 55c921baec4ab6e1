//! Sleep, reboot and shutdown of the machine, and restart of the host: what each verb asks of the
//! platform, and how the platform's answers are told to a client.
//!
//! The calls themselves block on a message bus or an operating system and stay with the caller.

use crate::text;
use crate::text::Sep;
use crate::update::Platform;
use vstd::prelude::*;
use vstd::string::StringExecFns;

verus! {

/// What a client may ask for.
#[derive(Clone, Copy, Debug, PartialEq, Eq, Structural)]
pub enum PowerVerb {
    Sleep,
    Reboot,
    Shutdown,
    /// Restart the host process, not the machine.
    Restart,
}

/// Exit status that asks the Windows service supervisor for an immediate relaunch.
pub const RESTART_EXIT_CODE: u32 = 75;

/// Whether a verb can be offered, and if not, why.
pub struct Availability {
    pub available: bool,
    pub reason: Option<String>,
}

/// What an availability holds.
#[verifier::ext_equal]
pub struct AvailabilityView {
    pub available: bool,
    pub reason: Option<Seq<char>>,
}

impl View for Availability {
    type V = AvailabilityView;

    open spec fn view(&self) -> AvailabilityView {
        AvailabilityView {
            available: self.available,
            reason: match self.reason {
                Some(r) => Some(r@),
                None => None,
            },
        }
    }
}

pub open spec fn offered() -> AvailabilityView {
    AvailabilityView { available: true, reason: None }
}

pub open spec fn withheld(reason: Seq<char>) -> AvailabilityView {
    AvailabilityView { available: false, reason: Some(reason) }
}

impl Availability {
    pub fn yes() -> (a: Availability)
        ensures
            a@ == offered(),
    {
        Availability { available: true, reason: None }
    }

    pub fn no(reason: String) -> (a: Availability)
        ensures
            a@ == withheld(reason@),
    {
        Availability { available: false, reason: Some(reason) }
    }
}

/// The host's user unit a line of a cgroup file names: the last part of its path, when that is a
/// service of the host inside a user's service manager.
pub open spec fn unit_of(line: Seq<char>) -> Option<Seq<char>> {
    let path = text::parts(line, Sep::Is(':')).last();
    let unit = text::parts(path, Sep::Is('/')).last();
    if text::holds(path, "/user@"@) && text::begins(unit, "punktfunk-host"@) && text::ends(
        unit,
        ".service"@,
    ) {
        Some(unit)
    } else {
        None
    }
}

/// The first unit named from line `k` on.
pub open spec fn first_unit(lines: Seq<Seq<char>>, k: int) -> Option<Seq<char>>
    decreases lines.len() - k,
{
    if k >= lines.len() {
        None
    } else {
        match unit_of(lines[k]) {
            Some(u) => Some(u),
            None => first_unit(lines, k + 1),
        }
    }
}

fn last_part<'a>(s: &'a str, c: char) -> (r: &'a str)
    ensures
        r@ == text::parts(s@, Sep::Is(c)).last(),
{
    let all: Vec<&'a str> = text::split(s, Sep::Is(c));
    assert(text::views(all@).len() == all@.len());
    all[all.len() - 1]
}

fn line_unit(line: &str) -> (u: Option<String>)
    ensures
        text::opt_string(u) == unit_of(line@),
{
    let path: &str = last_part(line, ':');
    let unit: &str = last_part(path, '/');
    if text::contains(path, "/user@") && text::starts_with(unit, "punktfunk-host")
        && text::ends_with(unit, ".service") {
        Some(unit.to_owned())
    } else {
        None
    }
}

/// The user unit a cgroup file places the host in; nothing outside one.
pub fn host_unit(cgroup: &str) -> (u: Option<String>)
    ensures
        text::opt_string(u) == first_unit(text::lines_of(cgroup@), 0),
{
    let lines: Vec<&str> = text::lines(cgroup);
    let ghost all = text::lines_of(cgroup@);
    let mut i: usize = 0;
    while i < lines.len()
        invariant
            i <= lines@.len(),
            text::views(lines@) == all,
            all == text::lines_of(cgroup@),
            first_unit(all, 0) == first_unit(all, i as int),
        decreases lines@.len() - i,
    {
        let line: &str = lines[i];
        assert(all[i as int] == line@);
        assert(i < all.len());
        let u: Option<String> = line_unit(line);
        if u.is_some() {
            return u;
        }
        i = i + 1;
    }
    assert(all.len() == lines@.len());
    None
}

/// Whether there is an executor at all.
pub fn supported(platform: Platform) -> (s: bool)
    ensures
        s == (platform == Platform::Linux || platform == Platform::Windows),
{
    platform == Platform::Linux || platform == Platform::Windows
}

/// The method that says whether logind would do a verb; none for a restart of the host.
pub open spec fn can_method_of(verb: PowerVerb) -> Option<Seq<char>> {
    match verb {
        PowerVerb::Sleep => Some("CanSuspend"@),
        PowerVerb::Reboot => Some("CanReboot"@),
        PowerVerb::Shutdown => Some("CanPowerOff"@),
        PowerVerb::Restart => None,
    }
}

pub fn can_method(verb: PowerVerb) -> (m: Option<&'static str>)
    ensures
        text::opt_view(m) == can_method_of(verb),
{
    match verb {
        PowerVerb::Sleep => Some("CanSuspend"),
        PowerVerb::Reboot => Some("CanReboot"),
        PowerVerb::Shutdown => Some("CanPowerOff"),
        PowerVerb::Restart => None,
    }
}

/// What std's `Debug` formatting of a string gives: the string in quotes with escapes.
pub uninterp spec fn debug_text(s: Seq<char>) -> Seq<char>;

/// `format!` with `{:?}` writes a string as [`debug_text`] names it.
#[verifier::external_body]
fn debug_quoted(s: &str) -> (r: String)
    ensures
        r@ == debug_text(s@),
{
    format!("{s:?}")
}

/// What the probe of a verb found out.
pub enum ProbeAnswer {
    /// logind's answer.
    Logind(String),
    /// Why logind could not be asked.
    NoLogind(String),
    /// The cgroup file of the host, for a restart on Linux.
    Cgroup(Option<String>),
    /// Windows: whether the machine can sleep, and whether the service started the host.
    Windows { can_sleep: bool, service_child: bool },
    /// A platform without an executor.
    NoExecutor,
}

/// Only a plain yes of logind is an offer: a challenge means that someone would have to answer a
/// prompt.
pub open spec fn logind_verdict(answer: Seq<char>) -> AvailabilityView {
    if answer == "yes"@ {
        offered()
    } else if answer == "challenge"@ {
        withheld(
            "the host would need interactive authorization — is the host user in group 'punktfunk' (and no second local user logged in)?"@,
        )
    } else if answer == "na"@ {
        withheld("this machine does not support it"@)
    } else {
        withheld("logind answered "@ + debug_text(answer))
    }
}

/// The verdict on a verb, given what the probe found out.
pub open spec fn verdict(verb: PowerVerb, a: ProbeAnswer) -> AvailabilityView {
    match a {
        ProbeAnswer::Logind(s) => logind_verdict(s@),
        ProbeAnswer::NoLogind(e) => withheld("no logind: "@ + e@),
        ProbeAnswer::Cgroup(c) => if c is Some && first_unit(text::lines_of(c->0@), 0) is Some {
            offered()
        } else {
            withheld(
                "the host is not running as its user service, so nothing would start it again"@,
            )
        },
        ProbeAnswer::Windows { can_sleep, service_child } => match verb {
            PowerVerb::Sleep => if can_sleep {
                offered()
            } else {
                withheld("this machine does not support sleep"@)
            },
            PowerVerb::Reboot => offered(),
            PowerVerb::Shutdown => offered(),
            PowerVerb::Restart => if service_child {
                offered()
            } else {
                withheld(
                    "the host is not running under the Punktfunk service, so nothing would start it again"@,
                )
            },
        },
        ProbeAnswer::NoExecutor => withheld("not supported on this host platform"@),
    }
}

/// Judges logind's answer.
pub fn judge_logind(answer: &str) -> (r: Availability)
    ensures
        r@ == logind_verdict(answer@),
{
    if text::same(answer, "yes") {
        Availability::yes()
    } else if text::same(answer, "challenge") {
        Availability::no(
            "the host would need interactive authorization — is the host user in group 'punktfunk' (and no second local user logged in)?".to_owned(),
        )
    } else if text::same(answer, "na") {
        Availability::no("this machine does not support it".to_owned())
    } else {
        let quoted: String = debug_quoted(answer);
        Availability::no("logind answered ".to_owned().concat(quoted.as_str()))
    }
}

/// Judges whether a verb can be offered.
pub fn probe(verb: PowerVerb, a: &ProbeAnswer) -> (r: Availability)
    ensures
        r@ == verdict(verb, *a),
{
    match a {
        ProbeAnswer::Logind(s) => judge_logind(s.as_str()),
        ProbeAnswer::NoLogind(e) => Availability::no("no logind: ".to_owned().concat(e.as_str())),
        ProbeAnswer::Cgroup(c) => {
            let unit: Option<String> = match c {
                Some(text) => host_unit(text.as_str()),
                None => None,
            };
            if unit.is_some() {
                Availability::yes()
            } else {
                Availability::no(
                    "the host is not running as its user service, so nothing would start it again".to_owned(),
                )
            }
        },
        ProbeAnswer::Windows { can_sleep, service_child } => match verb {
            PowerVerb::Sleep => if *can_sleep {
                Availability::yes()
            } else {
                Availability::no("this machine does not support sleep".to_owned())
            },
            PowerVerb::Reboot => Availability::yes(),
            PowerVerb::Shutdown => Availability::yes(),
            PowerVerb::Restart => if *service_child {
                Availability::yes()
            } else {
                Availability::no(
                    "the host is not running under the Punktfunk service, so nothing would start it again".to_owned(),
                )
            },
        },
        ProbeAnswer::NoExecutor => Availability::no(
            "not supported on this host platform".to_owned(),
        ),
    }
}

/// How a verb is done.
pub enum ActPlan {
    /// Call this method of logind, without prompting.
    Logind(&'static str),
    /// Restart this user unit without waiting: this process is the one that is stopped.
    RestartUnit(String),
    /// Exit with [`RESTART_EXIT_CODE`].
    ExitForRelaunch,
    Suspend,
    /// End the system, with or without a start after it.
    EndSystem { reboot: bool },
}

/// `r` is how a verb is done on a platform; the cgroup file matters for a restart on Linux.
pub open spec fn is_plan(
    platform: Platform,
    verb: PowerVerb,
    cgroup: Option<Seq<char>>,
    r: Result<ActPlan, String>,
) -> bool {
    match platform {
        Platform::Linux => match verb {
            PowerVerb::Sleep => r matches Ok(ActPlan::Logind(m)) && m@ == "Suspend"@,
            PowerVerb::Reboot => r matches Ok(ActPlan::Logind(m)) && m@ == "Reboot"@,
            PowerVerb::Shutdown => r matches Ok(ActPlan::Logind(m)) && m@ == "PowerOff"@,
            PowerVerb::Restart => {
                let unit = match cgroup {
                    Some(c) => first_unit(text::lines_of(c), 0),
                    None => None,
                };
                match unit {
                    Some(u) => r matches Ok(ActPlan::RestartUnit(n)) && n@ == u,
                    None => r matches Err(e) && e@
                        == "the host is not running as its user service"@,
                }
            },
        },
        Platform::Windows => match verb {
            PowerVerb::Restart => r matches Ok(ActPlan::ExitForRelaunch),
            PowerVerb::Sleep => r matches Ok(ActPlan::Suspend),
            PowerVerb::Reboot => r matches Ok(ActPlan::EndSystem { reboot }) && reboot,
            PowerVerb::Shutdown => r matches Ok(ActPlan::EndSystem { reboot }) && !reboot,
        },
        Platform::Other => r matches Err(e) && e@ == "not supported on this host platform"@,
    }
}

/// How a verb is done.
pub fn act(platform: Platform, verb: PowerVerb, cgroup: Option<&str>) -> (r: Result<
    ActPlan,
    String,
>)
    ensures
        is_plan(platform, verb, text::opt_view(cgroup), r),
{
    match platform {
        Platform::Linux => match verb {
            PowerVerb::Sleep => Ok(ActPlan::Logind("Suspend")),
            PowerVerb::Reboot => Ok(ActPlan::Logind("Reboot")),
            PowerVerb::Shutdown => Ok(ActPlan::Logind("PowerOff")),
            PowerVerb::Restart => {
                let unit: Option<String> = match cgroup {
                    Some(c) => host_unit(c),
                    None => None,
                };
                match unit {
                    Some(u) => Ok(ActPlan::RestartUnit(u)),
                    None => Err("the host is not running as its user service".to_owned()),
                }
            },
        },
        Platform::Windows => match verb {
            PowerVerb::Restart => Ok(ActPlan::ExitForRelaunch),
            PowerVerb::Sleep => Ok(ActPlan::Suspend),
            PowerVerb::Reboot => Ok(ActPlan::EndSystem { reboot: true }),
            PowerVerb::Shutdown => Ok(ActPlan::EndSystem { reboot: false }),
        },
        Platform::Other => Err("not supported on this host platform".to_owned()),
    }
}

/// A restart is offered on Linux exactly where it can be done.
pub proof fn an_offered_restart_can_be_done(cgroup: Option<String>, r: Result<ActPlan, String>)
    requires
        is_plan(
            Platform::Linux,
            PowerVerb::Restart,
            text::opt_string(cgroup),
            r,
        ),
    ensures
        verdict(PowerVerb::Restart, ProbeAnswer::Cgroup(cgroup)).available <==> r is Ok,
{
}

/// What a client asks for is what is done: on Linux logind is told to do what it was asked whether
/// it can, a machine is ended with a start after it exactly for a reboot, and a restart of the host
/// never touches the machine.
pub proof fn a_verb_is_done_as_it_was_asked(
    platform: Platform,
    verb: PowerVerb,
    cgroup: Option<&str>,
    r: Result<ActPlan, String>,
    m: Option<&'static str>,
    s: bool,
)
    requires
        call_ensures(act, (platform, verb, cgroup), r),
        call_ensures(can_method, (verb,), m),
        call_ensures(supported, (platform,), s),
    ensures
        m is None <==> verb == PowerVerb::Restart,
        platform == Platform::Linux && verb != PowerVerb::Restart ==> (r matches Ok(
            ActPlan::Logind(n),
        ) && m->0@ == seq!['C', 'a', 'n'] + n@),
        verb == PowerVerb::Sleep && platform == Platform::Linux ==> r->Ok_0->Logind_0@ == "Suspend"@,
        verb == PowerVerb::Reboot && platform == Platform::Linux ==> r->Ok_0->Logind_0@ == "Reboot"@,
        verb == PowerVerb::Shutdown && platform == Platform::Linux ==> r->Ok_0->Logind_0@
            == "PowerOff"@,
        r matches Ok(ActPlan::EndSystem { reboot }) ==> (reboot <==> verb == PowerVerb::Reboot) && (
        !reboot <==> verb == PowerVerb::Shutdown),
        platform == Platform::Windows && (verb == PowerVerb::Reboot || verb == PowerVerb::Shutdown)
            ==> r matches Ok(ActPlan::EndSystem { .. }),
        (r matches Ok(ActPlan::Suspend)) ==> verb == PowerVerb::Sleep,
        platform == Platform::Windows && verb == PowerVerb::Sleep ==> r matches Ok(ActPlan::Suspend),
        verb == PowerVerb::Restart && r is Ok ==> (r->Ok_0 is RestartUnit && platform
            == Platform::Linux) || (r->Ok_0 is ExitForRelaunch && platform == Platform::Windows),
        (r->Ok_0 is RestartUnit || r->Ok_0 is ExitForRelaunch) && r is Ok ==> verb
            == PowerVerb::Restart,
        platform == Platform::Windows ==> r is Ok,
        s <==> platform != Platform::Other,
        !s ==> r is Err,
        s && verb != PowerVerb::Restart ==> r is Ok,
        RESTART_EXIT_CODE == 75,
{
    reveal_strlit("CanSuspend");
    reveal_strlit("Suspend");
    reveal_strlit("CanReboot");
    reveal_strlit("Reboot");
    reveal_strlit("CanPowerOff");
    reveal_strlit("PowerOff");
    assert("CanSuspend"@ =~= seq!['C', 'a', 'n'] + "Suspend"@);
    assert("CanReboot"@ =~= seq!['C', 'a', 'n'] + "Reboot"@);
    assert("CanPowerOff"@ =~= seq!['C', 'a', 'n'] + "PowerOff"@);
}

/// A verb is offered exactly where it would be done without asking anyone: on a plain yes of
/// logind, for a host that something starts again, and on Windows for all but a machine that
/// cannot sleep. What is not offered says why.
pub proof fn only_what_would_be_done_is_offered(verb: PowerVerb, a: &ProbeAnswer, r: Availability)
    requires
        call_ensures(probe, (verb, a), r),
    ensures
        r.available <==> r.reason is None,
        a matches ProbeAnswer::Logind(s) ==> (r.available <==> s@ == seq!['y', 'e', 's']),
        a is NoLogind || a is NoExecutor ==> !r.available,
        a matches ProbeAnswer::Windows { can_sleep, service_child } ==> (r.available <==> match verb {
            PowerVerb::Sleep => *can_sleep,
            PowerVerb::Restart => *service_child,
            _ => true,
        }),
        a matches ProbeAnswer::Cgroup(c) ==> (c is None ==> !r.available),
{
    reveal_strlit("yes");
    assert("yes"@ =~= seq!['y', 'e', 's']);
    assert(r@ == verdict(verb, *a));
}

/// The host's unit is one that its cgroup file names: a service of the host inside a user's
/// manager. A restart is of that unit, and is offered exactly where there is one.
pub proof fn the_unit_is_the_hosts_own(
    cgroup: &str,
    u: Option<String>,
    r: Result<ActPlan, String>,
    probed: &ProbeAnswer,
    text: String,
    offer: Availability,
)
    requires
        call_ensures(host_unit, (cgroup,), u),
        call_ensures(act, (Platform::Linux, PowerVerb::Restart, Some(cgroup)), r),
        *probed == ProbeAnswer::Cgroup(Some(text)),
        text@ == cgroup@,
        call_ensures(probe, (PowerVerb::Restart, probed), offer),
    ensures
        u matches Some(n) ==> text::begins(n@, "punktfunk-host"@) && text::ends(n@, ".service"@),
        u is Some <==> r is Ok,
        u is Some <==> offer.available,
        u matches Some(n) ==> (r matches Ok(ActPlan::RestartUnit(x)) && x@ == n@),
        u matches Some(n) ==> exists|i: int|
            0 <= i < text::lines_of(cgroup@).len() && #[trigger] unit_of(
                text::lines_of(cgroup@)[i],
            ) == Some(n@),
{
    lemma_first_unit(text::lines_of(cgroup@), 0);
    assert(offer@ == verdict(PowerVerb::Restart, *probed));
}

proof fn lemma_first_unit(lines: Seq<Seq<char>>, k: int)
    requires
        0 <= k <= lines.len(),
    ensures
        first_unit(lines, k) matches Some(u) ==> exists|i: int|
            k <= i < lines.len() && #[trigger] unit_of(lines[i]) == Some(u),
    decreases lines.len() - k,
{
    if k < lines.len() {
        lemma_first_unit(lines, k + 1);
        if unit_of(lines[k]) is None {
            if let Some(u) = first_unit(lines, k + 1) {
                let i = choose|i: int|
                    k + 1 <= i < lines.len() && #[trigger] unit_of(lines[i]) == Some(u);
                assert(unit_of(lines[i]) == Some(u));
            }
        } else {
            assert(unit_of(lines[k]) is Some);
        }
    }
}

/// What is withheld is told why: what logind or the platform said, or that nothing would start
/// the host again.
pub proof fn what_is_withheld_is_told_why(
    verb: PowerVerb,
    a: &ProbeAnswer,
    r: Availability,
    answer: &str,
    judged: Availability,
)
    requires
        call_ensures(probe, (verb, a), r),
        call_ensures(judge_logind, (answer,), judged),
    ensures
        *a matches ProbeAnswer::Logind(s) ==> (s@ == answer@ ==> r@ == judged@),
        *a matches ProbeAnswer::NoLogind(e) ==> r.reason is Some && r.reason->0@
            == "no logind: "@ + e@,
        *a is Cgroup && !r.available ==> r.reason is Some && r.reason->0@
            == "the host is not running as its user service, so nothing would start it again"@,
        *a is Windows && verb == PowerVerb::Sleep && !r.available ==> r.reason is Some
            && r.reason->0@ == "this machine does not support sleep"@,
        *a is Windows && verb == PowerVerb::Restart && !r.available ==> r.reason is Some
            && r.reason->0@
            == "the host is not running under the Punktfunk service, so nothing would start it again"@,
        *a is NoExecutor ==> r.reason is Some && r.reason->0@
            == "not supported on this host platform"@,
        answer@ == "na"@ ==> judged.reason is Some && judged.reason->0@
            == "this machine does not support it"@,
        answer@ == "challenge"@ ==> judged.reason is Some && judged.reason->0@
            == "the host would need interactive authorization — is the host user in group 'punktfunk' (and no second local user logged in)?"@,
        answer@ == "yes"@ <==> judged.available,
        !judged.available <==> judged.reason is Some,
{
    reveal_strlit("yes");
    reveal_strlit("na");
    reveal_strlit("challenge");
    assert("yes"@.len() == 3 && "na"@.len() == 2 && "challenge"@.len() == 9);
    assert(r@ == verdict(verb, *a));
    assert(judged@ == logind_verdict(answer@));
}

} // verus!
