//! What holds of every plan.

use crate::setup::choices::{Action, Choices};
use crate::setup::facts::{Channel, Facts, Family, Firewall};
use crate::setup::plan;
use crate::setup::plan::Phase;
use crate::setup::platform;
use crate::setup::platform::Catalogue;
use crate::text;
use vstd::prelude::*;

verus! {

/// Where a phase stands in a run.
pub open spec fn rank(k: Phase) -> int {
    match k {
        Phase::Uninstall => 0,
        Phase::Switch => 0,
        Phase::Install => 0,
        Phase::Password => 1,
        Phase::Conflicts => 2,
        Phase::Options => 3,
        Phase::Linger => 4,
        Phase::Omarchy => 5,
        Phase::Groups => 6,
        Phase::Firewall => 7,
        Phase::Start => 8,
    }
}

/// The phases stand in order, none of them at `r` or beyond.
pub open spec fn ranked(p: Seq<plan::PhaseView>, r: int) -> bool {
    &&& forall|i: int| 0 <= i < p.len() ==> rank((#[trigger] p[i]).kind) < r
    &&& forall|i: int, j: int|
        0 <= i < j < p.len() ==> rank((#[trigger] p[i]).kind) < rank((#[trigger] p[j]).kind)
}

proof fn lemma_ranked(p: Seq<plan::PhaseView>, x: plan::PhaseView, r: int)
    requires
        ranked(p, r),
        r <= rank(x.kind),
    ensures
        ranked(p.push(x), rank(x.kind) + 1),
{
    let q = p.push(x);
    assert forall|i: int, j: int| 0 <= i < j < q.len() implies rank((#[trigger] q[i]).kind) < rank(
        (#[trigger] q[j]).kind,
    ) by {
        assert(q[i] == p[i]);
        if j < p.len() {
            assert(q[j] == p[j]);
        }
    }
    assert forall|i: int| 0 <= i < q.len() implies rank((#[trigger] q[i]).kind) < rank(x.kind)
        + 1 by {
        if i < p.len() {
            assert(q[i] == p[i]);
        }
    }
}

proof fn lemma_wider(p: Seq<plan::PhaseView>, r: int, wider: int)
    requires
        ranked(p, r),
        r <= wider,
    ensures
        ranked(p, wider),
{
}

/// Phases run in one order, none of them twice. The password and the port move land before the
/// Omarchy hand-off, which ends the run, and linger, which makes the user manager, before the
/// units are started.
pub proof fn phases_keep_their_order(cat: Catalogue, facts: Facts, choices: Choices)
    ensures
        ranked(plan::plan_of(cat, facts, choices), 9),
{
    let none = Seq::<plan::PhaseView>::empty();
    assert(ranked(none, 0));
    if choices.action == Action::Uninstall {
        let p = plan::plan_of(cat, facts, choices);
        lemma_ranked(none, p[0], 0);
        assert(p =~= none.push(p[0]));
        lemma_wider(p, 1, 9);
    } else {
        let first = none.push(plan::first_phase(cat, facts, choices));
        lemma_ranked(none, plan::first_phase(cat, facts, choices), 0);
        lemma_early(first, facts, choices);
        let early = plan::early_phases(first, facts, choices);
        if choices.components.host {
            lemma_late(early, facts, choices, plan::puts_console(facts, choices));
        } else {
            lemma_wider(early, 6, 9);
        }
    }
}

proof fn lemma_early(p: Seq<plan::PhaseView>, facts: Facts, choices: Choices)
    requires
        ranked(p, 1),
    ensures
        ranked(plan::early_phases(p, facts, choices), 6),
{
    let a = if choices.components.host && choices.web_password is Some {
        plan::and_phase(
            p,
            Phase::Password,
            "Web console password"@,
            Seq::<plan::StepView>::empty().push(plan::plain(plan::ActionView::WebPassword)),
        )
    } else {
        p
    };
    if choices.components.host && choices.web_password is Some {
        lemma_ranked(p, a.last(), 1);
        assert(a =~= p.push(a.last()));
    }
    lemma_wider(
        a,
        if choices.components.host && choices.web_password is Some {
            2
        } else {
            1
        },
        2,
    );
    let b = if choices.components.host {
        let c = plan::and_phase(
            a,
            Phase::Conflicts,
            "Checking for Sunshine / Apollo / Vibeshine"@,
            plan::conflict_steps_of(facts, choices),
        );
        lemma_ranked(a, c.last(), 2);
        assert(c =~= a.push(c.last()));
        let d = plan::and_phase(
            c,
            Phase::Options,
            "Options (each one can be changed later)"@,
            plan::option_steps_of(facts, choices),
        );
        lemma_ranked(c, d.last(), 3);
        assert(d =~= c.push(d.last()));
        lemma_wider(d, 4, 5);
        if choices.toggles.linger {
            let e = plan::and_phase(
                d,
                Phase::Linger,
                "Starting at boot with nobody logged in"@,
                Seq::<plan::StepView>::empty().push(plan::plain(plan::ActionView::Linger)),
            );
            lemma_ranked(d, e.last(), 4);
            assert(e =~= d.push(e.last()));
            e
        } else {
            d
        }
    } else {
        lemma_wider(a, 2, 5);
        a
    };
    assert(ranked(b, 5));
    if facts.omarchy {
        let o = plan::and_phase(b, Phase::Omarchy, "Omarchy"@, plan::omarchy_steps_of(choices));
        lemma_ranked(b, o.last(), 5);
        assert(o =~= b.push(o.last()));
    } else {
        lemma_wider(b, 5, 6);
    }
}

proof fn lemma_late(p: Seq<plan::PhaseView>, facts: Facts, choices: Choices, console: bool)
    requires
        ranked(p, 6),
    ensures
        ranked(plan::late_phases(p, facts, choices, console), 9),
{
    let a = plan::and_phase(
        p,
        Phase::Groups,
        "Controller access"@,
        plan::group_steps_of(facts, choices),
    );
    lemma_ranked(p, a.last(), 6);
    assert(a =~= p.push(a.last()));
    let b = plan::and_phase(
        a,
        Phase::Firewall,
        "Firewall"@,
        plan::firewall_steps_of(facts, choices),
    );
    lemma_ranked(a, b.last(), 7);
    assert(b =~= a.push(b.last()));
    lemma_wider(b, 8, 9);
    if choices.toggles.start {
        let c = plan::and_phase(
            b,
            Phase::Start,
            "Starting the host and the web console"@,
            plan::start_steps_of(facts, choices, console),
        );
        lemma_ranked(b, c.last(), 8);
        assert(c =~= b.push(c.last()));
    }
}

/// A run for the client alone wires nothing of the host: no password, no conflict, no option, no
/// linger, no group, no firewall and no start.
pub proof fn a_client_alone_wires_nothing(
    cat: Catalogue,
    facts: Facts,
    choices: Choices,
    i: int,
)
    requires
        choices.action == Action::Install,
        !choices.components.host,
        0 <= i < plan::plan_of(cat, facts, choices).len(),
    ensures
        ({
            let k = plan::plan_of(cat, facts, choices)[i].kind;
            k == Phase::Switch || k == Phase::Install || (k == Phase::Omarchy && facts.omarchy)
        }),
{
}

/// Uninstalling turns the user units off before it removes a package.
pub proof fn units_come_off_first(family: Family, facts: Facts)
    requires
        family != Family::Flatpak,
    ensures
        platform::uninstall_of(family, facts).len() > 0,
        platform::uninstall_of(family, facts)[0] == plan::run_of(platform::UNIT_TEARDOWN@),
{
}

/// Uninstalling removes exactly what is installed, in one line; a bare box gets no such line.
pub proof fn only_the_installed_is_removed(facts: Facts)
    ensures
        facts.installed_pf@.len() > 0 ==> platform::uninstall_of(Family::Apt, facts)[1]
            == platform::removal("sudo apt purge "@, facts),
        facts.installed_pf@.len() == 0 ==> platform::uninstall_of(Family::Apt, facts).len() == 3,
        facts.installed_pf@.len() > 0 ==> platform::uninstall_of(Family::Dnf, facts)[1]
            == platform::removal("sudo dnf remove "@, facts),
        facts.installed_pf@.len() == 0 ==> platform::uninstall_of(Family::Dnf, facts).len() == 2,
        facts.installed_pf@.len() == 0 && !facts.omarchy ==> platform::uninstall_of(
            Family::Pacman,
            facts,
        ).len() == 2,
{
}

/// On Omarchy the wiring comes off before the package that ships its remover.
pub proof fn omarchy_unwires_before_it_removes(facts: Facts)
    requires
        facts.omarchy,
        facts.installed_pf@.len() > 0,
    ensures
        ({
            let s = platform::uninstall_of(Family::Pacman, facts);
            &&& s[1].action == (plan::ActionView::RunIfPresent {
                program: "punktfunk-omarchy"@,
                cmd: "punktfunk-omarchy remove"@,
                warn_if_missing: None,
            })
            &&& s[2] == platform::removal("sudo pacman -Rns "@, facts)
        }),
{
}

/// A box that has everything and knows its channel is updated without writing its repo again: no
/// step of the update is one that writes it.
pub proof fn an_update_leaves_the_repo_alone(
    cat: Catalogue,
    facts: Facts,
    choices: Choices,
    i: int,
)
    requires
        choices.action == Action::Install,
        choices.components.host,
        choices.switch_from is None,
        facts.is_complete(),
        facts.current_channel is Some,
        0 <= i < plan::plan_of(cat, facts, choices)[0].steps.len(),
    ensures
        !platform::write_repo_of(facts.family, cat, facts, choices).contains(
            plan::plan_of(cat, facts, choices)[0].steps[i],
        ),
{
    let repo = platform::write_repo_of(facts.family, cat, facts, choices);
    let all = platform::install_of(facts.family, cat, facts, choices);
    let kept = plan::without_repo(all, repo);
    phases_keep_their_order(cat, facts, choices);
    lemma_first_stays(cat, facts, choices);
    assert(plan::plan_of(cat, facts, choices)[0].steps == kept);
    all.lemma_filter_pred(|x: plan::StepView| !repo.contains(x), i);
}

/// The first phase of an install opens its plan.
proof fn lemma_first_stays(cat: Catalogue, facts: Facts, choices: Choices)
    requires
        choices.action == Action::Install,
    ensures
        plan::plan_of(cat, facts, choices).len() > 0,
        plan::plan_of(cat, facts, choices)[0] == plan::first_phase(cat, facts, choices),
{
}

/// Two sets of choices that differ in the password alone.
pub open spec fn same_but_password(a: Choices, b: Choices) -> bool {
    a == (Choices { web_password: a.web_password, ..b })
}

/// A password is nowhere in the plan: whichever was typed, the plan is the same.
pub proof fn a_password_stays_out_of_the_plan(
    cat: Catalogue,
    facts: Facts,
    a: Choices,
    b: Choices,
)
    requires
        same_but_password(a, b),
        a.web_password is Some == b.web_password is Some,
    ensures
        plan::plan_of(cat, facts, a) == plan::plan_of(cat, facts, b),
{
    let console = plan::puts_console(facts, a);
    lemma_pieces_ignore(facts, a, b, console);
    lemma_first_ignores(cat, facts, a, b);
    if a.action == Action::Install {
        let first = Seq::<plan::PhaseView>::empty().push(plan::first_phase(cat, facts, a));
        lemma_early_ignores(first, facts, a, b);
        lemma_late_ignores(plan::early_phases(first, facts, a), facts, a, b, console);
    }
}

proof fn lemma_pieces_ignore(facts: Facts, a: Choices, b: Choices, console: bool)
    requires
        same_but_password(a, b),
    ensures
        plan::puts_console(facts, a) == plan::puts_console(facts, b),
        plan::conflict_steps_of(facts, a) == plan::conflict_steps_of(facts, b),
        plan::option_steps_of(facts, a) == plan::option_steps_of(facts, b),
        plan::group_steps_of(facts, a) == plan::group_steps_of(facts, b),
        plan::firewall_steps_of(facts, a) == plan::firewall_steps_of(facts, b),
        plan::start_steps_of(facts, a, console) == plan::start_steps_of(facts, b, console),
        plan::omarchy_steps_of(a) == plan::omarchy_steps_of(b),
{
}

proof fn lemma_first_ignores(cat: Catalogue, facts: Facts, a: Choices, b: Choices)
    requires
        same_but_password(a, b),
    ensures
        plan::first_phase(cat, facts, a) == plan::first_phase(cat, facts, b),
{
    lemma_install_ignores(cat, facts, a, b, facts.family);
    lemma_install_ignores(cat, facts, a, b, Family::Flatpak);
}

proof fn lemma_early_ignores(p: Seq<plan::PhaseView>, facts: Facts, a: Choices, b: Choices)
    requires
        same_but_password(a, b),
        a.web_password is Some == b.web_password is Some,
    ensures
        plan::early_phases(p, facts, a) == plan::early_phases(p, facts, b),
{
    lemma_pieces_ignore(facts, a, b, true);
}

proof fn lemma_late_ignores(
    p: Seq<plan::PhaseView>,
    facts: Facts,
    a: Choices,
    b: Choices,
    console: bool,
)
    requires
        same_but_password(a, b),
    ensures
        plan::late_phases(p, facts, a, console) == plan::late_phases(p, facts, b, console),
{
    lemma_pieces_ignore(facts, a, b, console);
}

proof fn lemma_install_ignores(
    cat: Catalogue,
    facts: Facts,
    a: Choices,
    b: Choices,
    family: Family,
)
    requires
        same_but_password(a, b),
    ensures
        platform::write_repo_of(family, cat, facts, a) == platform::write_repo_of(
            family,
            cat,
            facts,
            b,
        ),
        platform::install_of(family, cat, facts, a) == platform::install_of(family, cat, facts, b),
        platform::switch_of(family, cat, facts, a) == platform::switch_of(family, cat, facts, b),
{
    assert(platform::write_repo_of(family, cat, facts, a) =~= platform::write_repo_of(
        family,
        cat,
        facts,
        b,
    ));
    assert forall|l: Seq<char>| platform::composed(l, a) == platform::composed(l, b) by {}
    assert(platform::steamos_steps(cat, a) == platform::steamos_steps(cat, b));
}

/// The start phase closes with the certificate, right behind the units: it exists only once the
/// host has run. Only the choice against it drops it.
pub proof fn trust_follows_the_start(facts: Facts, choices: Choices, console: bool)
    ensures
        ({
            let s = plan::start_steps_of(facts, choices, console);
            let units = plan::plain(
                plan::ActionView::StartUnits { units: plan::units_of(facts, console) },
            );
            if choices.console_cert {
                &&& s.len() >= 2
                &&& s.last() == plan::plain(plan::ActionView::TrustCert)
                &&& s[s.len() - 2] == units
            } else {
                s.len() >= 1 && s.last() == units
            }
        }),
{
}

/// A switch moves every package of the family and every other one that is installed: none stays
/// on the channel the box leaves.
pub proof fn a_switch_leaves_nothing_behind(
    base: Seq<Seq<char>>,
    installed: Seq<Seq<char>>,
    pkg: Seq<char>,
)
    requires
        base.contains(pkg) || installed.contains(pkg),
    ensures
        plan::with_installed(base, installed).contains(pkg),
    decreases installed.len(),
{
    if installed.len() > 0 {
        let fewer = installed.drop_last();
        let rest = plan::with_installed(base, fewer);
        if base.contains(pkg) || fewer.contains(pkg) {
            a_switch_leaves_nothing_behind(base, fewer, pkg);
            let i = choose|i: int| 0 <= i < rest.len() && rest[i] == pkg;
            assert(rest.push(installed.last())[i] == pkg);
        } else {
            let i = choose|i: int| 0 <= i < installed.len() && installed[i] == pkg;
            if i < fewer.len() {
                assert(fewer[i] == pkg);
            }
            assert(installed.last() == pkg);
            assert(rest.push(pkg).last() == pkg);
            assert(rest.push(pkg)[rest.len() as int] == pkg);
        }
    }
}

/// No package is named twice in a switch.
pub proof fn a_switch_names_each_once(base: Seq<Seq<char>>, installed: Seq<Seq<char>>)
    requires
        base.no_duplicates(),
    ensures
        plan::with_installed(base, installed).no_duplicates(),
    decreases installed.len(),
{
    if installed.len() > 0 {
        a_switch_names_each_once(base, installed.drop_last());
        let rest = plan::with_installed(base, installed.drop_last());
        if !rest.contains(installed.last()) {
            let more = rest.push(installed.last());
            assert forall|i: int, j: int|
                0 <= i < more.len() && 0 <= j < more.len() && i != j implies more[i]
                != more[j] by {
                if i < rest.len() && j < rest.len() {
                    assert(more[i] == rest[i] && more[j] == rest[j]);
                } else if i < rest.len() {
                    assert(rest.contains(rest[i]));
                } else {
                    assert(rest.contains(rest[j]));
                }
            }
        }
    }
}

/// The step that moves the management port.
pub open spec fn port_move(choices: Choices) -> plan::ActionView {
    plan::ActionView::SetEnv {
        key: "PUNKTFUNK_MGMT_BIND"@,
        value: "0.0.0.0:"@ + text::decimal(choices.mgmt_port as nat),
    }
}

/// Step `s` of phase `p` or one that runs before it does `a`.
pub open spec fn done_by(plan: Seq<plan::PhaseView>, p: int, s: int, a: plan::ActionView) -> bool {
    exists|q: int, t: int|
        0 <= q <= p && 0 <= t < plan[q].steps.len() && (q < p || t <= s) && (
        #[trigger] plan[q].steps[t]).action == a
}

/// No step ends the run.
pub open spec fn none_ends(s: Seq<plan::StepView>) -> bool {
    forall|i: int| 0 <= i < s.len() ==> !(#[trigger] s[i]).ends_run
}

proof fn lemma_family_goes_on(cat: Catalogue, facts: Facts, choices: Choices, family: Family)
    requires
        family != Family::Steamos,
    ensures
        none_ends(platform::write_repo_of(family, cat, facts, choices)),
        none_ends(platform::install_of(family, cat, facts, choices)),
        none_ends(platform::switch_of(family, cat, facts, choices)),
{
    let repo = platform::write_repo_of(family, cat, facts, choices);
    assert(none_ends(repo));
    assert(none_ends(platform::install_of(family, cat, facts, choices)));
}

proof fn lemma_wiring_goes_on(facts: Facts, choices: Choices, console: bool)
    ensures
        none_ends(plan::conflict_steps_of(facts, choices)),
        none_ends(plan::option_steps_of(facts, choices)),
        none_ends(plan::group_steps_of(facts, choices)),
        none_ends(plan::firewall_steps_of(facts, choices)),
        none_ends(plan::start_steps_of(facts, choices, console)),
{
}

/// In the on-device build the last step ends the run, and with a moved port that step moves it.
proof fn lemma_steamos_ends_on_the_move(cat: Catalogue, choices: Choices)
    requires
        choices.move_mgmt_port,
    ensures
        ({
            let s = platform::ending(platform::steamos_steps(cat, choices));
            &&& s.len() > 0
            &&& s.last().action == port_move(choices)
            &&& forall|i: int| 0 <= i < s.len() - 1 ==> !(#[trigger] s[i]).ends_run
        }),
{
    let s = platform::steamos_steps(cat, choices);
    assert(none_ends(s));
    let e = platform::ending(s);
    assert forall|i: int| 0 <= i < e.len() - 1 implies !(#[trigger] e[i]).ends_run by {
        assert(e[i] == s[i]);
    }
}

proof fn lemma_filter_all(s: Seq<plan::StepView>, repo: Seq<plan::StepView>)
    requires
        repo.len() == 0,
    ensures
        plan::without_repo(s, repo) == s,
    decreases s.len(),
{
    reveal(Seq::filter);
    if s.len() > 0 {
        lemma_filter_all(s.drop_last(), repo);
        assert(!repo.contains(s.last()));
        assert(s.drop_last().push(s.last()) =~= s);
    } else {
        assert(plan::without_repo(s, repo) =~= s);
    }
}

proof fn lemma_filter_goes_on(s: Seq<plan::StepView>, repo: Seq<plan::StepView>)
    requires
        none_ends(s),
    ensures
        none_ends(plan::without_repo(s, repo)),
{
    let kept = plan::without_repo(s, repo);
    assert forall|i: int| 0 <= i < kept.len() implies !(#[trigger] kept[i]).ends_run by {
        s.lemma_filter_contains_rev(|x: plan::StepView| !repo.contains(x), kept[i]);
        let j = choose|j: int| 0 <= j < s.len() && s[j] == kept[i];
        assert(!s[j].ends_run);
    }
}

/// What the first phase of a host install ends on, if it ends the run at all.
proof fn lemma_first_phase_moves(cat: Catalogue, facts: Facts, choices: Choices, s: int)
    requires
        choices.components.host,
        choices.move_mgmt_port,
        0 <= s < plan::first_phase(cat, facts, choices).steps.len(),
        plan::first_phase(cat, facts, choices).steps[s].ends_run,
    ensures
        plan::first_phase(cat, facts, choices).steps[s].action == port_move(choices),
{
    let first = plan::first_phase(cat, facts, choices);
    if facts.family != Family::Steamos {
        lemma_family_goes_on(cat, facts, choices, facts.family);
        lemma_filter_goes_on(
            platform::install_of(facts.family, cat, facts, choices),
            platform::write_repo_of(facts.family, cat, facts, choices),
        );
        lemma_family_goes_on(cat, facts, choices, Family::Flatpak);
        assert(none_ends(first.steps));
    } else {
        lemma_steamos_ends_on_the_move(cat, choices);
        lemma_family_goes_on(cat, facts, choices, Family::Flatpak);
        let built = platform::ending(platform::steamos_steps(cat, choices));
        let repo = platform::write_repo_of(Family::Steamos, cat, facts, choices);
        lemma_filter_all(built, repo);
        if choices.switch_from is None && facts.is_complete() {
            assert(facts.current_channel is Some ==> first.steps == built);
        }
        if s >= built.len() {
            let client = platform::install_of(Family::Flatpak, cat, facts, choices);
            assert(first.steps[s] == client[s - built.len()]);
        }
    }
}

/// A hand-off ends the run, and never before the management port has moved next to another
/// streaming host: whatever step ends the run, it or one before it is the move.
pub proof fn a_hand_off_never_skips_the_port_move(
    cat: Catalogue,
    facts: Facts,
    choices: Choices,
    p: int,
    s: int,
)
    requires
        choices.action == Action::Install,
        choices.components.host,
        choices.move_mgmt_port,
        facts.sunshine_active,
        0 <= p < plan::plan_of(cat, facts, choices).len(),
        0 <= s < plan::plan_of(cat, facts, choices)[p].steps.len(),
        plan::plan_of(cat, facts, choices)[p].steps[s].ends_run,
    ensures
        done_by(plan::plan_of(cat, facts, choices), p, s, port_move(choices)),
{
    let whole = plan::plan_of(cat, facts, choices);
    lemma_first_stays(cat, facts, choices);
    lemma_wiring_goes_on(facts, choices, plan::puts_console(facts, choices));
    if p == 0 {
        lemma_first_phase_moves(cat, facts, choices, s);
    } else {
        let at: int = if choices.web_password is Some {
            2
        } else {
            1
        };
        lemma_conflicts_at(cat, facts, choices);
        assert(whole[at].kind == Phase::Conflicts);
        assert(whole[at].steps[1].action == port_move(choices));
        phases_keep_their_order(cat, facts, choices);
        lemma_only_omarchy_ends(cat, facts, choices, p, s);
        assert(rank(whole[at].kind) < rank(whole[p].kind));
        if at >= p {
            assert(at == p || rank(whole[p].kind) < rank(whole[at].kind));
        }
    }
}

/// Past the first phase, only the Omarchy hand-off ends a run.
proof fn lemma_only_omarchy_ends(cat: Catalogue, facts: Facts, choices: Choices, p: int, s: int)
    requires
        choices.action == Action::Install,
        choices.components.host,
        0 < p < plan::plan_of(cat, facts, choices).len(),
        0 <= s < plan::plan_of(cat, facts, choices)[p].steps.len(),
        plan::plan_of(cat, facts, choices)[p].steps[s].ends_run,
    ensures
        plan::plan_of(cat, facts, choices)[p].kind == Phase::Omarchy,
{
    lemma_wiring_goes_on(facts, choices, plan::puts_console(facts, choices));
}

proof fn lemma_conflicts_at(cat: Catalogue, facts: Facts, choices: Choices)
    requires
        choices.action == Action::Install,
        choices.components.host,
    ensures
        ({
            let whole = plan::plan_of(cat, facts, choices);
            let at: int = if choices.web_password is Some {
                2
            } else {
                1
            };
            at < whole.len() && whole[at].kind == Phase::Conflicts && whole[at].steps
                == plan::conflict_steps_of(facts, choices)
        }),
{
}

/// A step of these does `a`.
pub open spec fn does(steps: Seq<plan::StepView>, a: plan::ActionView) -> bool {
    exists|i: int| 0 <= i < steps.len() && (#[trigger] steps[i]).action == a
}

/// A step of these runs this line.
pub open spec fn runs(steps: Seq<plan::StepView>, cmd: Seq<char>) -> bool {
    does(steps, plan::ActionView::Run(cmd))
}

/// A plan has a part of this kind.
pub open spec fn has_part(plan: Seq<plan::PhaseView>, kind: Phase) -> bool {
    exists|p: int| 0 <= p < plan.len() && (#[trigger] plan[p]).kind == kind
}

proof fn lemma_has_push(p: Seq<plan::PhaseView>, x: plan::PhaseView, k: Phase)
    ensures
        has_part(p.push(x), k) <==> has_part(p, k) || x.kind == k,
{
    let q = p.push(x);
    if has_part(p, k) {
        let i = choose|i: int| 0 <= i < p.len() && (#[trigger] p[i]).kind == k;
        assert(q[i] == p[i]);
    }
    if x.kind == k {
        assert(q[p.len() as int].kind == k);
    }
    if has_part(q, k) {
        let i = choose|i: int| 0 <= i < q.len() && (#[trigger] q[i]).kind == k;
        if i < p.len() {
            assert(p[i].kind == k);
        }
    }
}

proof fn lemma_has(cat: Catalogue, facts: Facts, c: Choices, k: Phase)
    requires
        c.action == Action::Install,
    ensures
        has_part(plan::plan_of(cat, facts, c), k) <==> match k {
            Phase::Uninstall => false,
            Phase::Switch => c.switch_from is Some,
            Phase::Install => c.switch_from is None,
            Phase::Password => c.components.host && c.web_password is Some,
            Phase::Conflicts => c.components.host,
            Phase::Options => c.components.host,
            Phase::Linger => c.components.host && c.toggles.linger,
            Phase::Omarchy => facts.omarchy,
            Phase::Groups => c.components.host,
            Phase::Firewall => c.components.host,
            Phase::Start => c.components.host && c.toggles.start,
        },
{
    let none = Seq::<plan::PhaseView>::empty();
    assert(!has_part(none, k));
    let p0 = none.push(plan::first_phase(cat, facts, c));
    lemma_has_push(none, plan::first_phase(cat, facts, c), k);
    let password = plan::PhaseView {
        kind: Phase::Password,
        title: "Web console password"@,
        steps: Seq::<plan::StepView>::empty().push(plan::plain(plan::ActionView::WebPassword)),
    };
    let conflicts = plan::PhaseView {
        kind: Phase::Conflicts,
        title: "Checking for Sunshine / Apollo / Vibeshine"@,
        steps: plan::conflict_steps_of(facts, c),
    };
    let options = plan::PhaseView {
        kind: Phase::Options,
        title: "Options (each one can be changed later)"@,
        steps: plan::option_steps_of(facts, c),
    };
    let linger = plan::PhaseView {
        kind: Phase::Linger,
        title: "Starting at boot with nobody logged in"@,
        steps: Seq::<plan::StepView>::empty().push(plan::plain(plan::ActionView::Linger)),
    };
    let omarchy = plan::PhaseView {
        kind: Phase::Omarchy,
        title: "Omarchy"@,
        steps: plan::omarchy_steps_of(c),
    };
    let groups = plan::PhaseView {
        kind: Phase::Groups,
        title: "Controller access"@,
        steps: plan::group_steps_of(facts, c),
    };
    let firewall = plan::PhaseView {
        kind: Phase::Firewall,
        title: "Firewall"@,
        steps: plan::firewall_steps_of(facts, c),
    };
    let start = plan::PhaseView {
        kind: Phase::Start,
        title: "Starting the host and the web console"@,
        steps: plan::start_steps_of(facts, c, plan::puts_console(facts, c)),
    };
    let host = c.components.host;
    let p1 = if host && c.web_password is Some {
        lemma_has_push(p0, password, k);
        p0.push(password)
    } else {
        p0
    };
    let p4 = if host {
        lemma_has_push(p1, conflicts, k);
        let p2 = p1.push(conflicts);
        lemma_has_push(p2, options, k);
        let p3 = p2.push(options);
        if c.toggles.linger {
            lemma_has_push(p3, linger, k);
            p3.push(linger)
        } else {
            p3
        }
    } else {
        p1
    };
    let p5 = if facts.omarchy {
        lemma_has_push(p4, omarchy, k);
        p4.push(omarchy)
    } else {
        p4
    };
    if host {
        lemma_has_push(p5, groups, k);
        let p6 = p5.push(groups);
        lemma_has_push(p6, firewall, k);
        let p7 = p6.push(firewall);
        if c.toggles.start {
            lemma_has_push(p7, start, k);
            assert(plan::plan_of(cat, facts, c) == p7.push(start));
        } else {
            assert(plan::plan_of(cat, facts, c) == p7);
        }
    } else {
        assert(plan::plan_of(cat, facts, c) == p5);
    }
}

/// A plan has the parts that were chosen and no others: an uninstall is one part, an install
/// begins with itself or with the switch, and what is switched off leaves no part behind.
pub proof fn a_plan_has_the_parts_that_were_chosen(
    cat: &Catalogue,
    facts: &Facts,
    c: &Choices,
    plan: plan::Plan,
)
    requires
        call_ensures(plan::build, (cat, facts, c), plan),
    ensures
        c.action == Action::Uninstall ==> plan@.len() == 1 && plan@[0].kind == Phase::Uninstall,
        c.action == Action::Install ==> {
            &&& plan@.len() > 0
            &&& plan@[0].kind == if c.switch_from is Some {
                Phase::Switch
            } else {
                Phase::Install
            }
            &&& !has_part(plan@, Phase::Uninstall)
            &&& has_part(plan@, Phase::Password) <==> c.components.host && c.web_password is Some
            &&& has_part(plan@, Phase::Conflicts) <==> c.components.host
            &&& has_part(plan@, Phase::Options) <==> c.components.host
            &&& has_part(plan@, Phase::Linger) <==> c.components.host && c.toggles.linger
            &&& has_part(plan@, Phase::Omarchy) <==> facts.omarchy
            &&& has_part(plan@, Phase::Groups) <==> c.components.host
            &&& has_part(plan@, Phase::Firewall) <==> c.components.host
            &&& has_part(plan@, Phase::Start) <==> c.components.host && c.toggles.start
        },
        forall|p: int, q: int|
            0 <= p < q < plan@.len() ==> (#[trigger] plan@[p]).kind != (#[trigger] plan@[q]).kind,
{
    phases_keep_their_order(*cat, *facts, *c);
    if c.action == Action::Install {
        lemma_first_stays(*cat, *facts, *c);
        lemma_has(*cat, *facts, *c, Phase::Uninstall);
        lemma_has(*cat, *facts, *c, Phase::Password);
        lemma_has(*cat, *facts, *c, Phase::Conflicts);
        lemma_has(*cat, *facts, *c, Phase::Options);
        lemma_has(*cat, *facts, *c, Phase::Linger);
        lemma_has(*cat, *facts, *c, Phase::Omarchy);
        lemma_has(*cat, *facts, *c, Phase::Groups);
        lemma_has(*cat, *facts, *c, Phase::Firewall);
        lemma_has(*cat, *facts, *c, Phase::Start);
    }
}

proof fn lemma_steps(cat: Catalogue, facts: Facts, c: Choices, p: int)
    requires
        c.action == Action::Install,
        0 <= p < plan::plan_of(cat, facts, c).len(),
    ensures
        ({
            let x = plan::plan_of(cat, facts, c)[p];
            let one = Seq::<plan::StepView>::empty();
            match x.kind {
                Phase::Uninstall => false,
                Phase::Switch => x.steps == platform::switch_of(facts.family, cat, facts, c),
                Phase::Install => p == 0 && x == plan::install_phase_of(cat, facts, c),
                Phase::Password => x.steps == one.push(plan::plain(plan::ActionView::WebPassword)),
                Phase::Conflicts => x.steps == plan::conflict_steps_of(facts, c),
                Phase::Options => x.steps == plan::option_steps_of(facts, c),
                Phase::Linger => x.steps == one.push(plan::plain(plan::ActionView::Linger)),
                Phase::Omarchy => x.steps == plan::omarchy_steps_of(c),
                Phase::Groups => x.steps == plan::group_steps_of(facts, c),
                Phase::Firewall => x.steps == plan::firewall_steps_of(facts, c),
                Phase::Start => x.steps == plan::start_steps_of(
                    facts,
                    c,
                    plan::puts_console(facts, c),
                ),
            }
        }),
{
}

/// The console answers where it was told to, and the options are those that were switched on.
pub proof fn options_are_those_switched_on(
    cat: &Catalogue,
    facts: &Facts,
    c: &Choices,
    plan: plan::Plan,
    p: int,
)
    requires
        call_ensures(plan::build, (cat, facts, c), plan),
        c.action == Action::Install,
        0 <= p < plan@.len(),
        plan@[p].kind == Phase::Options,
    ensures
        plan@[p].steps.len() > 0,
        plan@[p].steps[0].action == (plan::ActionView::SetEnv {
            key: "PUNKTFUNK_UI_BIND"@,
            value: c.web_bind@,
        }),
        does(
            plan@[p].steps,
            plan::ActionView::SetSetting {
                id: "gamestream"@,
                to: plan::SettingView::Flag(true),
            },
        ) <==> c.toggles.gamestream,
        does(
            plan@[p].steps,
            plan::ActionView::SetSetting {
                id: "clipboard"@,
                to: plan::SettingView::Word("files"@),
            },
        ) <==> c.toggles.clipboard,
        does(
            plan@[p].steps,
            plan::ActionView::SetEnv { key: "PUNKTFUNK_COMPOSITOR"@, value: "gamescope"@ },
        ) <==> !facts.graphical_seat && !facts.desktop_sessions && !facts.couch_box,
{
    lemma_steps(*cat, *facts, *c, p);
    let s = plan@[p].steps;
    reveal_strlit("gamestream");
    reveal_strlit("clipboard");
    reveal_strlit("PUNKTFUNK_UI_BIND");
    reveal_strlit("PUNKTFUNK_COMPOSITOR");
    assert("PUNKTFUNK_UI_BIND"@.len() != "PUNKTFUNK_COMPOSITOR"@.len());
    let warned = c.toggles.gamestream && facts.sunshine_active;
    let g: int = if warned {
        2
    } else {
        1
    };
    let k: int = if c.toggles.gamestream {
        g + 1
    } else {
        1
    };
    if c.toggles.gamestream {
        assert(s[g].action == (plan::ActionView::SetSetting {
            id: "gamestream"@,
            to: plan::SettingView::Flag(true),
        }));
    }
    if c.toggles.clipboard {
        assert(s[k].action == (plan::ActionView::SetSetting {
            id: "clipboard"@,
            to: plan::SettingView::Word("files"@),
        }));
    }
    if !facts.graphical_seat && !facts.desktop_sessions && !facts.couch_box {
        assert(s[s.len() - 1].action == (plan::ActionView::SetEnv {
            key: "PUNKTFUNK_COMPOSITOR"@,
            value: "gamescope"@,
        }));
    }
}

/// The management port moves exactly where another streaming host runs and the move was chosen,
/// and to the port that was chosen.
pub proof fn the_port_moves_where_it_must(
    cat: &Catalogue,
    facts: &Facts,
    c: &Choices,
    plan: plan::Plan,
    p: int,
    port: String,
)
    requires
        call_ensures(plan::build, (cat, facts, c), plan),
        c.action == Action::Install,
        0 <= p < plan@.len(),
        plan@[p].kind == Phase::Conflicts,
        call_ensures(text::decimal_u64, (c.mgmt_port as u64,), port),
    ensures
        does(
            plan@[p].steps,
            plan::ActionView::SetEnv {
                key: "PUNKTFUNK_MGMT_BIND"@,
                value: "0.0.0.0:"@ + port@,
            },
        ) <==> facts.sunshine_active && c.move_mgmt_port,
        forall|i: int|
            0 <= i < plan@[p].steps.len() ==> !((#[trigger] plan@[p].steps[i]).action is Run),
{
    lemma_steps(*cat, *facts, *c, p);
    let s = plan@[p].steps;
    if facts.sunshine_active && c.move_mgmt_port {
        assert(s[1].action == (plan::ActionView::SetEnv {
            key: "PUNKTFUNK_MGMT_BIND"@,
            value: "0.0.0.0:"@ + port@,
        }));
    }
}

/// The user joins the input group unless they are in it or there is none, and the other group
/// where that was switched on and they are not in it yet.
pub proof fn groups_are_joined_once(
    cat: &Catalogue,
    facts: &Facts,
    c: &Choices,
    plan: plan::Plan,
    p: int,
)
    requires
        call_ensures(plan::build, (cat, facts, c), plan),
        c.action == Action::Install,
        0 <= p < plan@.len(),
        plan@[p].kind == Phase::Groups,
    ensures
        runs(plan@[p].steps, "sudo usermod -aG punktfunk \"$USER\""@) <==> c.toggles.punktfunk_group
            && !facts.in_punktfunk_group,
        runs(plan@[p].steps, "sudo usermod -aG input \"$USER\""@) <==> !facts.in_input_group
            && !facts.has_ujust && facts.has_input_group,
        runs(
            plan@[p].steps,
            "ujust add-user-to-input-group add || sudo usermod -aG input \"$USER\""@,
        ) <==> !facts.in_input_group && facts.has_ujust,
{
    lemma_steps(*cat, *facts, *c, p);
    let s = plan@[p].steps;
    reveal_strlit("sudo usermod -aG punktfunk \"$USER\"");
    reveal_strlit("sudo usermod -aG input \"$USER\"");
    reveal_strlit("ujust add-user-to-input-group add || sudo usermod -aG input \"$USER\"");
    let other = "sudo usermod -aG punktfunk \"$USER\""@;
    let input = "sudo usermod -aG input \"$USER\""@;
    let recipe = "ujust add-user-to-input-group add || sudo usermod -aG input \"$USER\""@;
    assert(other.len() != input.len() && input.len() != recipe.len());
    assert(other[0] == 's' && recipe[0] == 'u');
    lemma_does_short(s, plan::ActionView::Run(other));
    lemma_does_short(s, plan::ActionView::Run(input));
    lemma_does_short(s, plan::ActionView::Run(recipe));
    assert(s[0] == plan::input_step_of(*facts));
    if c.toggles.punktfunk_group {
        assert(s.len() == 2);
        assert(s[1] == if facts.in_punktfunk_group {
            plan::note_of(plan::Level::Good, "already in the punktfunk group"@)
        } else {
            plan::run_of("sudo usermod -aG punktfunk \"$USER\""@)
        });
    } else {
        assert(s.len() == 1);
    }
}

proof fn lemma_does_short(s: Seq<plan::StepView>, a: plan::ActionView)
    requires
        1 <= s.len() <= 2,
    ensures
        does(s, a) <==> s[0].action == a || (s.len() == 2 && s[1].action == a),
{
}

/// The firewall is opened for the host and its console, for the older protocol where that was
/// switched on and for a port that moved; where there is no firewall nothing runs.
pub proof fn the_firewall_is_opened_for_what_runs(
    cat: &Catalogue,
    facts: &Facts,
    c: &Choices,
    plan: plan::Plan,
    p: int,
    port: String,
)
    requires
        call_ensures(plan::build, (cat, facts, c), plan),
        c.action == Action::Install,
        0 <= p < plan@.len(),
        plan@[p].kind == Phase::Firewall,
        call_ensures(text::decimal_u64, (c.mgmt_port as u64,), port),
    ensures
        facts.firewall == Firewall::Absent ==> forall|i: int|
            0 <= i < plan@[p].steps.len() ==> !((#[trigger] plan@[p].steps[i]).action is Run),
        facts.firewall == Firewall::Ufw ==> {
            &&& runs(plan@[p].steps, "sudo ufw allow punktfunk-native"@)
            &&& runs(plan@[p].steps, "sudo ufw allow punktfunk-web"@)
            &&& runs(plan@[p].steps, "sudo ufw allow punktfunk-gamestream"@)
                <==> c.toggles.gamestream
            &&& plan@[p].steps.len() == 2 + (if c.toggles.gamestream {
                1int
            } else {
                0
            }) + (if c.move_mgmt_port {
                1int
            } else {
                0
            })
            &&& c.move_mgmt_port ==> runs(plan@[p].steps, "sudo ufw allow "@ + port@ + "/tcp"@)
        },
        facts.firewall == Firewall::Firewalld ==> {
            &&& plan@[p].steps.len() == 3
            &&& plan@[p].steps[0].action == plan::ActionView::Run("sudo firewall-cmd --reload"@)
            &&& plan@[p].steps[2].action == plan::ActionView::Run("sudo firewall-cmd --reload"@)
            &&& plan@[p].steps[1].action == plan::ActionView::Run(
                "sudo firewall-cmd --permanent "@
                    + "--add-service=punktfunk-native --add-service=punktfunk-web"@ + (
                if c.toggles.gamestream {
                    " --add-service=punktfunk-gamestream"@
                } else {
                    Seq::empty()
                }) + (if c.move_mgmt_port {
                    " --add-port="@ + port@ + "/tcp"@
                } else {
                    Seq::empty()
                }),
            )
        },
{
    lemma_steps(*cat, *facts, *c, p);
    let s = plan@[p].steps;
    if facts.firewall == Firewall::Ufw {
        reveal_strlit("sudo ufw allow punktfunk-native");
        reveal_strlit("sudo ufw allow punktfunk-web");
        reveal_strlit("sudo ufw allow punktfunk-gamestream");
        reveal_strlit("sudo ufw allow ");
        reveal_strlit("/tcp");
        assert(s[0].action == plan::ActionView::Run("sudo ufw allow punktfunk-native"@));
        assert(s[1].action == plan::ActionView::Run("sudo ufw allow punktfunk-web"@));
        if c.toggles.gamestream {
            assert(s[2].action == plan::ActionView::Run("sudo ufw allow punktfunk-gamestream"@));
        }
        let older = "sudo ufw allow punktfunk-gamestream"@;
        assert(older.last() == 'm' && "sudo ufw allow punktfunk-native"@.last() == 'e');
        assert("sudo ufw allow punktfunk-web"@.last() == 'b');
        let moved = "sudo ufw allow "@ + port@ + "/tcp"@;
        if c.move_mgmt_port {
            assert(s[s.len() - 1].action == plan::ActionView::Run(moved));
            assert(moved.last() == 'p');
            assert(moved != older);
        }
        if !c.toggles.gamestream && runs(s, older) {
            let i = choose|i: int|
                0 <= i < s.len() && (#[trigger] s[i]).action == plan::ActionView::Run(older);
            assert(i == 0 || i == 1 || i == s.len() - 1);
        }
    }
    if facts.firewall == Firewall::Firewalld {
        let a = "--add-service=punktfunk-native --add-service=punktfunk-web"@;
        let g = if c.toggles.gamestream {
            " --add-service=punktfunk-gamestream"@
        } else {
            Seq::empty()
        };
        let m = if c.move_mgmt_port {
            " --add-port="@ + port@ + "/tcp"@
        } else {
            Seq::empty()
        };
        assert(plan::services_of(*c) =~= a + g + m);
        assert("sudo firewall-cmd --permanent "@ + plan::services_of(*c)
            =~= "sudo firewall-cmd --permanent "@ + a + g + m);
    }
}

/// What is started is the host, its console where there is or comes one, and the runner where it
/// is off; the certificate is trusted where that was chosen.
pub proof fn what_is_there_is_started(
    cat: &Catalogue,
    facts: &Facts,
    c: &Choices,
    plan: plan::Plan,
    p: int,
)
    requires
        call_ensures(plan::build, (cat, facts, c), plan),
        c.action == Action::Install,
        0 <= p < plan@.len(),
        plan@[p].kind == Phase::Start,
    ensures
        exists|i: int|
            0 <= i < plan@[p].steps.len() && ((
            #[trigger] plan@[p].steps[i]).action matches plan::ActionView::StartUnits { units } && {
                &&& units.contains("punktfunk-host"@)
                &&& facts.web_unit_present ==> units.contains("punktfunk-web"@)
                &&& c.switch_from is None && (!facts.is_complete() || facts.current_channel is Some)
                    && (facts.family == Family::Apt || facts.family == Family::Dnf || facts.family
                    == Family::Pacman || facts.family == Family::Sysext) ==> units.contains(
                    "punktfunk-web"@,
                )
                &&& units.contains("punktfunk-scripting"@) <==> facts.scripting_unit_disabled
            }),
        does(plan@[p].steps, plan::ActionView::TrustCert) <==> c.console_cert,
{
    lemma_steps(*cat, *facts, *c, p);
    lemma_has(*cat, *facts, *c, Phase::Start);
    let s = plan@[p].steps;
    let console = plan::puts_console(*facts, *c);
    let units = plan::units_of(*facts, console);
    let web = facts.web_unit_present || console;
    reveal_strlit("punktfunk-host");
    reveal_strlit("punktfunk-web");
    reveal_strlit("punktfunk-scripting");
    let at: int = if web {
        0
    } else {
        1
    };
    assert(s[at].action == (plan::ActionView::StartUnits { units }));
    assert(units[0] == "punktfunk-host"@);
    if web {
        assert(units[1] == "punktfunk-web"@);
    }
    if facts.scripting_unit_disabled {
        assert(units[units.len() - 1] == "punktfunk-scripting"@);
    }
    if c.console_cert {
        assert(s[s.len() - 1].action == plan::ActionView::TrustCert);
    }
    assert(has_part(plan@, Phase::Start));
    assert(c.components.host);
}

/// The hand-off ends the run and passes on each choice as one or zero; where it was not chosen
/// nothing runs.
pub proof fn the_hand_off_passes_on_the_choices(
    cat: &Catalogue,
    facts: &Facts,
    c: &Choices,
    plan: plan::Plan,
    p: int,
)
    requires
        call_ensures(plan::build, (cat, facts, c), plan),
        c.action == Action::Install,
        0 <= p < plan@.len(),
        plan@[p].kind == Phase::Omarchy,
    ensures
        plan@[p].steps.len() == 1,
        plan@[p].steps[0].ends_run <==> c.omarchy_setup,
        !c.omarchy_setup ==> plan@[p].steps[0].action is Note,
        c.omarchy_setup ==> (plan@[p].steps[0].action matches plan::ActionView::RunIfPresent {
            program,
            cmd,
            warn_if_missing,
        } && {
            &&& program == "punktfunk-omarchy"@
            &&& warn_if_missing is Some
            &&& cmd == "punktfunk-omarchy setup --groups="@ + digit(c.toggles.punktfunk_group)
                + " --cert="@ + digit(c.console_cert) + " --toasts="@ + digit(
                c.toggles.omarchy_toasts,
            ) + " --idle-guard="@ + digit(c.toggles.omarchy_idle) + " --theme="@ + digit(
                c.toggles.omarchy_theme,
            )
        }),
{
    lemma_steps(*cat, *facts, *c, p);
    reveal_strlit("1");
    reveal_strlit("0");
    assert("1"@ =~= seq!['1']);
    assert("0"@ =~= seq!['0']);
}

/// One for yes, zero for no.
pub open spec fn digit(b: bool) -> Seq<char> {
    if b {
        seq!['1']
    } else {
        seq!['0']
    }
}

/// The password is written in the part of its own and the user's manager is kept in its own;
/// neither does anything else.
pub proof fn a_part_of_one_step(
    cat: &Catalogue,
    facts: &Facts,
    c: &Choices,
    plan: plan::Plan,
    p: int,
)
    requires
        call_ensures(plan::build, (cat, facts, c), plan),
        c.action == Action::Install,
        0 <= p < plan@.len(),
    ensures
        plan@[p].kind == Phase::Password ==> plan@[p].steps.len() == 1 && plan@[p].steps[0].action
            == plan::ActionView::WebPassword,
        plan@[p].kind == Phase::Linger ==> plan@[p].steps.len() == 1 && plan@[p].steps[0].action
            == plan::ActionView::Linger,
{
    lemma_steps(*cat, *facts, *c, p);
}

/// A complete host without a repo is left alone; any other install runs what its family installs,
/// and a client that the family does not pack comes as a flatpak.
pub proof fn an_install_is_the_familys(
    cat: &Catalogue,
    facts: &Facts,
    c: &Choices,
    plan: plan::Plan,
    own: Vec<plan::Step>,
    packed: Vec<plan::Step>,
)
    requires
        call_ensures(plan::build, (cat, facts, c), plan),
        c.action == Action::Install,
        c.switch_from is None,
        call_ensures(
            platform::PkgBackend::install,
            (&platform::PkgBackend { family: facts.family }, cat, facts, c),
            own,
        ),
        call_ensures(
            platform::PkgBackend::install,
            (&platform::PkgBackend { family: Family::Flatpak }, cat, facts, c),
            packed,
        ),
    ensures
        facts.missing@.len() == 0 && c.components.host && facts.current_channel is None ==> (
        forall|i: int|
            0 <= i < plan@[0].steps.len() ==> (#[trigger] plan@[0].steps[i]).action is Note),
        facts.missing@.len() > 0 && c.components.host && !c.components.client ==> plan@[0].steps
            == plan::step_views(own@),
        facts.missing@.len() > 0 && c.components.host && c.components.client ==> plan@[0].steps
            == if facts.family == Family::Apt || facts.family == Family::Dnf || facts.family
            == Family::Pacman {
            plan::step_views(own@)
        } else {
            plan::step_views(own@) + plan::step_views(packed@)
        },
        !c.components.host && c.components.client ==> plan@[0].steps == if facts.family
            == Family::Apt || facts.family == Family::Dnf || facts.family == Family::Pacman {
            plan::step_views(own@)
        } else {
            plan::step_views(packed@)
        },
{
    lemma_first_stays(*cat, *facts, *c);
    let none = Seq::<plan::StepView>::empty();
    let a = plan::step_views(own@);
    let b = plan::step_views(packed@);
    assert(a + none =~= a);
    assert(none + b =~= b);
    assert(none + none =~= none);
}

/// A switch moves the box as its family does, and an uninstall takes off what the family put on,
/// and the flatpak client beside it.
pub proof fn a_switch_and_an_uninstall_are_the_familys(
    cat: &Catalogue,
    facts: &Facts,
    c: &Choices,
    plan: plan::Plan,
    moved: Vec<plan::Step>,
    own: Vec<plan::Step>,
    packed: Vec<plan::Step>,
)
    requires
        call_ensures(plan::build, (cat, facts, c), plan),
        call_ensures(
            platform::PkgBackend::switch,
            (&platform::PkgBackend { family: facts.family }, cat, facts, c),
            moved,
        ),
        call_ensures(
            platform::PkgBackend::uninstall,
            (&platform::PkgBackend { family: facts.family }, facts),
            own,
        ),
        call_ensures(
            platform::PkgBackend::uninstall,
            (&platform::PkgBackend { family: Family::Flatpak }, facts),
            packed,
        ),
    ensures
        c.action == Action::Install && c.switch_from is Some ==> plan@[0].steps == plan::step_views(
            moved@,
        ),
        c.action == Action::Uninstall ==> plan@[0].steps == if facts.has_flatpak_client
            && facts.family != Family::Flatpak {
            plan::step_views(own@) + plan::step_views(packed@)
        } else {
            plan::step_views(own@)
        },
{
    let a = plan::step_views(own@);
    assert(a + Seq::<plan::StepView>::empty() =~= a);
    if c.action == Action::Install {
        lemma_first_stays(*cat, *facts, *c);
    }
}

/// The command lines of a run are those of its steps, in order: a plan with one more command at
/// its end has one more line.
pub proof fn commands_are_those_of_the_steps(
    p: &plan::Plan,
    steps: Vec<&plan::Step>,
    cmds: Vec<String>,
    i: int,
)
    requires
        call_ensures(plan::Plan::steps, (p,), steps),
        call_ensures(plan::Plan::commands, (p,), cmds),
        0 <= i < steps@.len(),
    ensures
        steps@[i].action matches plan::StepAction::Run(c) ==> text::contents(cmds@).contains(c@),
        steps@[i].action matches plan::StepAction::RunIfPresent { cmd, .. } ==> text::contents(
            cmds@,
        ).contains(cmd@),
        cmds@.len() <= steps@.len(),
        p@.len() == 1 ==> steps@.len() == p@[0].steps.len(),
{
    let all = plan::refs_view(steps@);
    assert(all.len() == steps@.len());
    lemma_commands(all, i);
    assert(all[i] == steps@[i]@);
    assert(text::contents(cmds@).len() == cmds@.len());
    if p@.len() == 1 {
        assert(plan::steps_of(p@, 1) == plan::steps_of(p@, 0) + p@[0].steps);
        assert(plan::steps_of(p@, 0).len() == 0);
    }
}

proof fn lemma_commands(s: Seq<plan::StepView>, i: int)
    requires
        0 <= i < s.len(),
    ensures
        plan::command_of(s[i]) matches Some(c) ==> plan::commands_of(s).contains(c),
        plan::commands_of(s).len() <= s.len(),
    decreases s.len(),
{
    let d = s.drop_last();
    let rest = plan::commands_of(d);
    if d.len() > 0 {
        lemma_commands(
            d,
            if i < d.len() {
                i
            } else {
                0
            },
        );
    } else {
        assert(rest.len() == 0);
    }
    if let Some(c) = plan::command_of(s[i]) {
        let all = plan::commands_of(s);
        if i < d.len() {
            assert(d[i] == s[i]);
            let k = choose|k: int| 0 <= k < rest.len() && rest[k] == c;
            assert(all[k] == c);
        } else {
            assert(all[rest.len() as int] == c);
        }
    }
}

/// A switch moves every package of the family and every one that is installed, none of them
/// twice.
pub proof fn a_switch_takes_everything_along(
    base: Vec<String>,
    installed: &Vec<String>,
    out: Vec<String>,
    pkg: Seq<char>,
)
    requires
        call_ensures(plan::switch_pkgs, (base, installed), out),
    ensures
        text::contents(base@).contains(pkg) || text::contents(installed@).contains(pkg)
            <==> text::contents(out@).contains(pkg),
        text::contents(base@).no_duplicates() ==> text::contents(out@).no_duplicates(),
{
    let b = text::contents(base@);
    let i = text::contents(installed@);
    if b.contains(pkg) || i.contains(pkg) {
        a_switch_leaves_nothing_behind(b, i, pkg);
    }
    if text::contents(out@).contains(pkg) {
        lemma_nothing_invented(b, i, pkg);
    }
    if b.no_duplicates() {
        a_switch_names_each_once(b, i);
    }
}

proof fn lemma_nothing_invented(base: Seq<Seq<char>>, installed: Seq<Seq<char>>, pkg: Seq<char>)
    requires
        plan::with_installed(base, installed).contains(pkg),
    ensures
        base.contains(pkg) || installed.contains(pkg),
    decreases installed.len(),
{
    if installed.len() > 0 {
        let d = installed.drop_last();
        let rest = plan::with_installed(base, d);
        let all = plan::with_installed(base, installed);
        let i = choose|i: int| 0 <= i < all.len() && all[i] == pkg;
        if i < rest.len() {
            assert(rest[i] == pkg);
            lemma_nothing_invented(base, d, pkg);
            if d.contains(pkg) {
                let k = choose|k: int| 0 <= k < d.len() && d[k] == pkg;
                assert(installed[k] == pkg);
            }
        } else {
            assert(installed[installed.len() - 1] == pkg);
        }
    }
}

/// A plan can be built exactly where the catalogue carries what it builds on: always for an
/// uninstall, and for a run that takes nothing of the family's.
pub proof fn an_uninstall_needs_no_catalogue(
    cat: &Catalogue,
    facts: &Facts,
    c: &Choices,
    r: bool,
    served: bool,
)
    requires
        call_ensures(plan::can_plan, (cat, facts, c), r),
        call_ensures(Catalogue::can_serve, (cat, facts.family, facts), served),
    ensures
        c.action == Action::Uninstall ==> r,
        served ==> r,
        c.action == Action::Install && c.switch_from is Some ==> (r <==> served),
        c.action == Action::Install && facts.missing@.len() > 0 && c.components.host ==> (r
            <==> served),
        c.action == Action::Install && c.switch_from is None && facts.missing@.len() == 0
            && c.components.host && facts.current_channel is None ==> r,
{
}

/// Two channels have two names, and only the second one puts something on a repo.
pub proof fn channels_are_told_apart(s: &'static str, t: &'static str)
    requires
        call_ensures(plan::repo_channel_suffix, (Channel::Stable,), s),
        call_ensures(plan::repo_channel_suffix, (Channel::Canary,), t),
    ensures
        s@.len() == 0,
        t@ == seq!['-'] + "canary"@,
{
    reveal_strlit("");
    reveal_strlit("-canary");
    reveal_strlit("canary");
    assert("-canary"@ =~= seq!['-'] + "canary"@);
}

/// Only a family that ships packages brings a console, and only the three with a package manager
/// pack the client.
pub proof fn families_bring_what_they_pack(f: Family, console: bool, native: bool, name: &'static str)
    requires
        call_ensures(Family::installs_console, (f,), console),
        call_ensures(Family::has_native_client, (f,), native),
        call_ensures(Family::as_str, (f,), name),
    ensures
        console <==> f != Family::Steamos && f != Family::Flatpak,
        native <==> f != Family::Steamos && f != Family::Flatpak && f != Family::Sysext,
        native ==> console,
        f == Family::Apt ==> name@ == "apt"@,
        f == Family::Dnf ==> name@ == "dnf"@,
        f == Family::Pacman ==> name@ == "pacman"@,
        f == Family::Sysext ==> name@ == "sysext"@,
        f == Family::Steamos ==> name@ == "steamos"@,
        f == Family::Flatpak ==> name@ == "flatpak"@,
{
}

/// A host is complete exactly where nothing of it is missing, and a channel goes by its name.
pub proof fn a_host_is_complete_without_a_gap(f: &Facts, r: bool, c: Channel, s: &'static str)
    requires
        call_ensures(Facts::fully_installed, (f,), r),
        call_ensures(Channel::as_str, (c,), s),
    ensures
        r <==> f.missing@.len() == 0,
        s@ == if c == Channel::Stable {
            "stable"@
        } else {
            "canary"@
        },
{
}

} // verus!
