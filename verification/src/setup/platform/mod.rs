//! One package family each: how it installs, switches, uninstalls and is asked.
//!
//! Install lines come from the catalogue of the download page and are kept as they stand there.
//! Nothing above this module knows apt or pacman.

pub mod windows;

use crate::json;
use crate::json::Json;
use crate::setup::choices::Choices;
use crate::setup::facts::{Channel, Facts, Family, DOCS, FLATPAK_APP};
use crate::setup::plan;
use crate::setup::plan::{no_steps, put, put_all, switch_pkgs, Level, Step, StepAction};
use crate::text;
use crate::text::Sep;
use vstd::prelude::*;
use vstd::string::StringExecFns;

verus! {

/// Removes the stable section, the canary section, or both.
pub const PACMAN_RM_REPO: &'static str =
    "sudo sed -i '/^\\[punktfunk\\(-canary\\)\\{0,1\\}\\]$/,/^Server = /d' /etc/pacman.conf";

/// User units go first: package removal cannot see what is enabled in a home directory.
pub const UNIT_TEARDOWN: &'static str =
    "systemctl --user disable --now punktfunk-host punktfunk-web punktfunk-scripting 2>/dev/null || true";

/// A platform of the download page.
pub struct PlatformEntry {
    pub id: String,
    pub install: Vec<String>,
    /// The oldest system it runs on, in one line; empty when the page gives none.
    pub floor: String,
}

/// The platforms of the download page.
pub struct Catalogue {
    pub platforms: Vec<PlatformEntry>,
}

impl Catalogue {
    /// The first entry of an id at or after `k`; the length when there is none.
    pub open spec fn place(self, id: Seq<char>, k: int) -> int
        decreases self.platforms@.len() - k,
    {
        if k >= self.platforms@.len() || k < 0 {
            self.platforms@.len() as int
        } else if self.platforms@[k].id@ == id {
            k
        } else {
            self.place(id, k + 1)
        }
    }

    /// The install lines of an id; none for an unknown one.
    pub open spec fn lines(self, id: Seq<char>) -> Seq<Seq<char>> {
        let i = self.place(id, 0);
        if i < self.platforms@.len() {
            text::contents(self.platforms@[i].install@)
        } else {
            Seq::empty()
        }
    }

    /// The floor of an id; empty for an unknown one.
    pub open spec fn floor_of(self, id: Seq<char>) -> Seq<char> {
        let i = self.place(id, 0);
        if i < self.platforms@.len() {
            self.platforms@[i].floor@
        } else {
            ""@
        }
    }

    /// Some line of an id begins with a marker.
    pub open spec fn marked(self, id: Seq<char>, marker: Seq<char>) -> bool {
        text::first_with(self.lines(id), marker, 0) < self.lines(id).len()
    }

    /// The catalogue carries every line the families build on.
    pub open spec fn fit(self) -> bool {
        &&& self.marked("debian"@, "sudo apt install"@)
        &&& self.marked("fedora"@, "sudo dnf install"@)
        &&& self.marked("arch"@, "sudo pacman -S"@)
        &&& self.marked("omarchy"@, "sudo pacman -S"@)
        &&& self.lines("bazzite"@).len() > 0
        &&& self.lines("steamos"@).len() > 0
    }

    /// The catalogue carries the line at which a family's repo part ends.
    pub open spec fn splits(self, family: Family, facts: Facts) -> bool {
        match family {
            Family::Apt => self.marked("debian"@, "sudo apt install"@),
            Family::Dnf => self.marked("fedora"@, "sudo dnf install"@),
            Family::Pacman => self.marked(pacman_entry(facts), "sudo pacman -S"@),
            _ => true,
        }
    }

    /// The catalogue carries the lines one family's install builds on.
    pub open spec fn serves(self, family: Family, facts: Facts) -> bool {
        match family {
            Family::Sysext => self.lines("bazzite"@).len() > 0,
            Family::Steamos => self.lines("steamos"@).len() > 0,
            _ => self.splits(family, facts),
        }
    }

    /// Whether the catalogue carries the lines one family's install builds on.
    pub fn can_serve(&self, family: Family, facts: &Facts) -> (r: bool)
        ensures
            r == self.serves(family, *facts),
    {
        match family {
            Family::Apt => self.has_mark("debian", "sudo apt install"),
            Family::Dnf => self.has_mark("fedora", "sudo dnf install"),
            Family::Pacman => self.has_mark(PkgBackend::entry(facts), "sudo pacman -S"),
            Family::Sysext => {
                let lines: Vec<String> = install_lines(self, "bazzite");
                assert(text::contents(lines@).len() == lines@.len());
                lines.len() > 0
            },
            Family::Steamos => {
                let lines: Vec<String> = install_lines(self, "steamos");
                assert(text::contents(lines@).len() == lines@.len());
                lines.len() > 0
            },
            Family::Flatpak => true,
        }
    }

    fn has_mark(&self, id: &str, marker: &str) -> (r: bool)
        ensures
            r == self.marked(id@, marker@),
    {
        let lines: Vec<String> = install_lines(self, id);
        assert(text::contents(lines@).len() == lines@.len());
        text::find_with(&lines, marker) < lines.len()
    }

    /// Whether the catalogue carries every line the families build on.
    pub fn is_fit(&self) -> (r: bool)
        ensures
            r == self.fit(),
    {
        let bazzite: Vec<String> = install_lines(self, "bazzite");
        let steamos: Vec<String> = install_lines(self, "steamos");
        assert(text::contents(bazzite@).len() == bazzite@.len());
        assert(text::contents(steamos@).len() == steamos@.len());
        self.has_mark("debian", "sudo apt install") && self.has_mark("fedora", "sudo dnf install")
            && self.has_mark("arch", "sudo pacman -S") && self.has_mark("omarchy", "sudo pacman -S")
            && bazzite.len() > 0 && steamos.len() > 0
    }

    fn find(&self, id: &str) -> (i: usize)
        ensures
            i == self.place(id@, 0),
            i <= self.platforms@.len(),
    {
        let mut i: usize = 0;
        while i < self.platforms.len()
            invariant
                i <= self.platforms@.len(),
                self.place(id@, 0) == self.place(id@, i as int),
            decreases self.platforms@.len() - i,
        {
            if text::same(self.platforms[i].id.as_str(), id) {
                return i;
            }
            i = i + 1;
        }
        i
    }
}

/// A platform of the download page.
#[verifier::ext_equal]
pub struct EntryView {
    pub id: Seq<char>,
    pub install: Seq<Seq<char>>,
    pub floor: Seq<char>,
}

impl View for PlatformEntry {
    type V = EntryView;

    open spec fn view(&self) -> EntryView {
        EntryView { id: self.id@, install: text::contents(self.install@), floor: self.floor@ }
    }
}

impl View for Catalogue {
    type V = Seq<EntryView>;

    open spec fn view(&self) -> Seq<EntryView> {
        self.platforms@.map_values(|e: PlatformEntry| e@)
    }
}

/// The texts among the first `n` items, in order.
pub open spec fn texts_in(items: Seq<json::JsonView>, n: int) -> Seq<Seq<char>>
    decreases n,
{
    if 0 < n <= items.len() {
        let rest = texts_in(items, n - 1);
        match json::text_of(items[n - 1]) {
            Some(t) => rest.push(t),
            None => rest,
        }
    } else {
        Seq::empty()
    }
}

/// The entry an item of the page describes; none without an id.
pub open spec fn entry_in(p: json::JsonView) -> Option<EntryView> {
    let lines = json::items_of(json::member_of(p, "install"@));
    match json::text_of(json::member_of(p, "id"@)) {
        Some(id) => Some(
            EntryView {
                id,
                install: texts_in(lines, lines.len() as int),
                floor: match json::text_of(json::member_of(p, "floor"@)) {
                    Some(f) => f,
                    None => ""@,
                },
            },
        ),
        None => None,
    }
}

/// The entries among the first `n` items, in order.
pub open spec fn entries_in(items: Seq<json::JsonView>, n: int) -> Seq<EntryView>
    decreases n,
{
    if 0 < n <= items.len() {
        let rest = entries_in(items, n - 1);
        match entry_in(items[n - 1]) {
            Some(e) => rest.push(e),
            None => rest,
        }
    } else {
        Seq::empty()
    }
}

/// The catalogue a document holds.
pub open spec fn catalogue_in(d: json::JsonView) -> Seq<EntryView> {
    let items = json::items_of(json::member_of(d, "platforms"@));
    entries_in(items, items.len() as int)
}

fn member_text(p: &Json, name: &str) -> (t: Option<String>)
    ensures
        text::opt_string(t) == json::text_of(json::member_of(p@, name@)),
{
    match p.member(name) {
        Some(x) => match x.as_text() {
            Some(t) => Some(t.clone()),
            None => None,
        },
        None => None,
    }
}

fn read_lines(p: &Json) -> (lines: Vec<String>)
    ensures
        ({
            let items = json::items_of(json::member_of(p@, "install"@));
            text::contents(lines@) == texts_in(items, items.len() as int)
        }),
{
    let ghost items = json::items_of(json::member_of(p@, "install"@));
    let mut lines: Vec<String> = text::no_texts();
    match p.member("install") {
        Some(x) => match x.items() {
            Some(l) => {
                let mut i: usize = 0;
                while i < l.len()
                    invariant
                        i <= l@.len(),
                        l@.len() == items.len(),
                        forall|k: int| 0 <= k < l@.len() ==> #[trigger] l@[k]@ == items[k],
                        text::contents(lines@) == texts_in(items, i as int),
                    decreases l@.len() - i,
                {
                    assert(l@[i as int]@ == items[i as int]);
                    match l[i].as_text() {
                        Some(t) => {
                            lines = text::with_text(lines, t.as_str());
                        },
                        None => {},
                    }
                    i = i + 1;
                }
            },
            None => {},
        },
        None => {},
    }
    lines
}

fn read_entry(p: &Json) -> (e: Option<PlatformEntry>)
    ensures
        entry_in(p@) == match e {
            Some(x) => Some(x@),
            None => None,
        },
{
    match member_text(p, "id") {
        Some(id) => {
            let floor: String = match member_text(p, "floor") {
                Some(f) => f,
                None => "".to_owned(),
            };
            Some(PlatformEntry { id, install: read_lines(p), floor })
        },
        None => None,
    }
}

impl Catalogue {
    /// The catalogue a document holds. An item without an id is never asked for; a line or a
    /// floor that is no text is as if it were not there.
    pub fn of(doc: &Json) -> (c: Catalogue)
        ensures
            c@ == catalogue_in(doc@),
    {
        let ghost items = json::items_of(json::member_of(doc@, "platforms"@));
        let mut platforms: Vec<PlatformEntry> = Vec::new();
        let ghost f = |e: PlatformEntry| e@;
        assert(platforms@.map_values(f) =~= Seq::<EntryView>::empty());
        match doc.member("platforms") {
            Some(x) => match x.items() {
                Some(l) => {
                    let mut i: usize = 0;
                    while i < l.len()
                        invariant
                            i <= l@.len(),
                            l@.len() == items.len(),
                            forall|k: int| 0 <= k < l@.len() ==> #[trigger] l@[k]@ == items[k],
                            f == (|e: PlatformEntry| e@),
                            platforms@.map_values(f) == entries_in(items, i as int),
                        decreases l@.len() - i,
                    {
                        assert(l@[i as int]@ == items[i as int]);
                        let ghost before = platforms@;
                        match read_entry(&l[i]) {
                            Some(e) => {
                                platforms.push(e);
                                assert(platforms@.map_values(f) =~= before.map_values(f).push(e@));
                            },
                            None => {},
                        }
                        i = i + 1;
                    }
                },
                None => {},
            },
            None => {},
        }
        Catalogue { platforms }
    }

    /// Reads the catalogue of the download page; none when its text is no document.
    pub fn parse(text: &str) -> (c: Option<Catalogue>)
        ensures
            match c {
                Some(x) => json::json_read(text@) matches Some(d) && x@ == catalogue_in(d),
                None => json::json_read(text@) is None,
            },
    {
        match json::read(text) {
            Some(doc) => Some(Catalogue::of(&doc)),
            None => None,
        }
    }
}

/// The install lines of a platform.
pub fn install_lines(cat: &Catalogue, id: &str) -> (lines: Vec<String>)
    ensures
        text::contents(lines@) == cat.lines(id@),
{
    let i: usize = cat.find(id);
    if i < cat.platforms.len() {
        text::copied(&cat.platforms[i].install)
    } else {
        text::no_texts()
    }
}

/// The platform's floor as the download page words it.
pub fn floor(cat: &Catalogue, id: &str) -> (s: String)
    ensures
        s@ == cat.floor_of(id@),
{
    let i: usize = cat.find(id);
    if i < cat.platforms.len() {
        cat.platforms[i].floor.clone()
    } else {
        "".to_owned()
    }
}

/// The lines before the marker: the repo block.
pub open spec fn repo_lines(cat: Catalogue, id: Seq<char>, marker: Seq<char>) -> Seq<Seq<char>> {
    cat.lines(id).take(text::first_with(cat.lines(id), marker, 0))
}

/// The lines from the marker on: the install.
pub open spec fn pkg_lines(cat: Catalogue, id: Seq<char>, marker: Seq<char>) -> Seq<Seq<char>> {
    cat.lines(id).skip(text::first_with(cat.lines(id), marker, 0))
}

/// Lines before the marker are the repo block; the rest is the install.
pub fn split_at(cat: &Catalogue, id: &str, marker: &str) -> (r: (Vec<String>, Vec<String>))
    requires
        cat.marked(id@, marker@),
    ensures
        text::contents(r.0@) == repo_lines(*cat, id@, marker@),
        text::contents(r.1@) == pkg_lines(*cat, id@, marker@),
        r.1@.len() > 0,
        text::begins(r.1@[0]@, marker@),
{
    let lines: Vec<String> = install_lines(cat, id);
    let at: usize = text::find_with(&lines, marker);
    let ghost all = text::contents(lines@);
    assert(all.len() == lines@.len());
    let n: usize = lines.len();
    let mut repo: Vec<String> = text::no_texts();
    let mut install: Vec<String> = text::no_texts();
    let mut i: usize = 0;
    assert(all.take(0) =~= Seq::<Seq<char>>::empty());
    while i < at
        invariant
            i <= at <= n,
            n == lines@.len(),
            all == text::contents(lines@),
            text::contents(repo@) == all.take(i as int),
        decreases at - i,
    {
        repo = text::with_text(repo, lines[i].as_str());
        i = i + 1;
        assert(text::contents(repo@) =~= all.take(i as int));
    }
    assert(all.subrange(at as int, at as int) =~= Seq::<Seq<char>>::empty());
    while i < n
        invariant
            at <= i <= n,
            n == lines@.len(),
            all == text::contents(lines@),
            text::contents(install@) == all.subrange(at as int, i as int),
        decreases n - i,
    {
        install = text::with_text(install, lines[i].as_str());
        i = i + 1;
        assert(text::contents(install@) =~= all.subrange(at as int, i as int));
    }
    proof {
        assert(all.subrange(at as int, n as int) =~= all.skip(at as int));
        assert(text::contents(install@).len() == install@.len());
        assert(text::contents(install@)[0] == install@[0]@);
        assert(all[at as int] == lines@[at as int]@);
    }
    (repo, install)
}

/// A step for each line.
pub open spec fn runs(lines: Seq<Seq<char>>) -> Seq<plan::StepView> {
    lines.map_values(|l: Seq<char>| plan::run_of(l))
}

fn run_lines(lines: &Vec<String>) -> (steps: Vec<Step>)
    ensures
        plan::step_views(steps@) == runs(text::contents(lines@)),
{
    let ghost all = text::contents(lines@);
    let ghost f = |l: Seq<char>| plan::run_of(l);
    let mut steps: Vec<Step> = no_steps();
    let mut i: usize = 0;
    assert(plan::step_views(steps@) =~= all.take(0).map_values(f));
    while i < lines.len()
        invariant
            i <= lines@.len(),
            all == text::contents(lines@),
            f == (|l: Seq<char>| plan::run_of(l)),
            plan::step_views(steps@) == all.take(i as int).map_values(f),
        decreases lines@.len() - i,
    {
        put(&mut steps, Step::run(lines[i].as_str()));
        i = i + 1;
        assert(plan::step_views(steps@) =~= all.take(i as int).map_values(f));
    }
    assert(all.take(i as int) =~= all);
    steps
}

/// The words before the first package of ours.
pub open spec fn head_words(words: Seq<Seq<char>>) -> Seq<Seq<char>> {
    words.take(text::first_with(words, "punktfunk"@, 0))
}

/// The line with the client in place of the packages: the family's own flags stay.
pub open spec fn client_line(line: Seq<char>) -> Seq<char> {
    text::joined(head_words(text::words(line)), " "@) + " punktfunk-client"@
}

/// The install line, with the client put behind it or in place of the packages.
pub open spec fn composed(line: Seq<char>, choices: Choices) -> Seq<char> {
    if choices.components.host && choices.components.client {
        line + " punktfunk-client"@
    } else if choices.components.client {
        client_line(line)
    } else {
        line
    }
}

fn client_only(line: &str) -> (s: String)
    ensures
        s@ == client_line(line@),
{
    let words: Vec<&str> = text::split_words(line);
    let ghost w = text::views(words@);
    let mut head: Vec<String> = text::no_texts();
    let mut i: usize = 0;
    assert(w.take(0) =~= Seq::<Seq<char>>::empty());
    while i < words.len() && !text::starts_with(words[i], "punktfunk")
        invariant
            i <= words@.len(),
            w == text::views(words@),
            text::contents(head@) == w.take(i as int),
            text::first_with(w, "punktfunk"@, 0) == text::first_with(w, "punktfunk"@, i as int),
        decreases words@.len() - i,
    {
        assert(w[i as int] == words@[i as int]@);
        head = text::with_text(head, words[i]);
        i = i + 1;
        assert(text::contents(head@) =~= w.take(i as int));
    }
    proof {
        if i < words@.len() {
            assert(w[i as int] == words@[i as int]@);
        }
        assert(w.len() == words@.len());
    }
    text::join(&head, " ").concat(" punktfunk-client")
}

fn compose_install(line: &str, choices: &Choices) -> (s: String)
    ensures
        s@ == composed(line@, *choices),
{
    if choices.components.host && choices.components.client {
        line.to_owned().concat(" punktfunk-client")
    } else if choices.components.client {
        client_only(line)
    } else {
        line.to_owned()
    }
}

/// The entry of an Arch box: same repo and packages, another way to take them.
pub open spec fn pacman_entry(facts: Facts) -> Seq<char> {
    if facts.omarchy {
        "omarchy"@
    } else {
        "arch"@
    }
}

/// An apt repo line for a channel.
pub open spec fn apt_line(line: Seq<char>, channel: Channel) -> Seq<char> {
    if channel == Channel::Canary {
        text::replaced(line, " stable main"@, " canary main"@)
    } else {
        line
    }
}

/// A pacman repo line for a channel: both the guard and the section name the repo.
pub open spec fn pacman_line(line: Seq<char>, channel: Channel) -> Seq<char> {
    if channel == Channel::Canary {
        text::replaced(
            text::replaced(line, "punktfunk\\]"@, "punktfunk-canary\\]"@),
            "[punktfunk]"@,
            "[punktfunk-canary]"@,
        )
    } else {
        line
    }
}

/// The rpm path of a group on a channel.
pub open spec fn rpm_path(group: Seq<char>, channel: Channel) -> Seq<char> {
    match channel {
        Channel::Canary => group + "-canary"@,
        Channel::Stable => group,
    }
}

/// The steps that write a family's repo; none for a family without one.
pub open spec fn write_repo_of(
    family: Family,
    cat: Catalogue,
    facts: Facts,
    choices: Choices,
) -> Seq<plan::StepView> {
    match family {
        Family::Apt => repo_lines(cat, "debian"@, "sudo apt install"@).map_values(
            |l: Seq<char>| plan::run_of(apt_line(l, choices.channel)),
        ),
        Family::Dnf => {
            let wrote = Seq::<plan::StepView>::empty().push(
                plan::run_of(
                    text::joined(repo_lines(cat, "fedora"@, "sudo dnf install"@), "\n"@),
                ),
            );
            match facts.rpm_group {
                Some(g) => plan::and_if(
                    wrote,
                    rpm_path(g@, choices.channel) != "fedora-44"@,
                    plan::run_of(
                        "sudo sed -i 's|/rpm/fedora-44|/rpm/"@ + rpm_path(g@, choices.channel)
                            + "|' /etc/yum.repos.d/punktfunk.repo"@,
                    ),
                ),
                None => wrote,
            }
        },
        Family::Pacman => repo_lines(cat, pacman_entry(facts), "sudo pacman -S"@).map_values(
            |l: Seq<char>| plan::run_of(pacman_line(l, choices.channel)),
        ),
        _ => Seq::empty(),
    }
}

/// The pacman lines of the install; the hand-off line is a phase of its own.
pub open spec fn pacman_lines(cat: Catalogue, facts: Facts) -> Seq<Seq<char>> {
    pkg_lines(cat, pacman_entry(facts), "sudo pacman -S"@).filter(
        |l: Seq<char>| text::begins(l, "sudo pacman"@),
    )
}

/// The steps of the on-device build, of which the last is to end the run.
pub open spec fn steamos_steps(cat: Catalogue, choices: Choices) -> Seq<plan::StepView> {
    let lines = cat.lines("steamos"@);
    let cloned = lines.drop_last().map_values(
        |l: Seq<char>| plan::run_of("[ -d ~/punktfunk/.git ] || "@ + l),
    );
    let announced = cloned.push(
        plan::note_of(
            Level::Warn,
            "the build runs on this device — it asks for your sudo password first, then takes about 20 minutes on a first run (about a minute on a re-run) and prints nothing until it finishes"@,
        ),
    );
    let built = announced.push(
        plan::run_of(
            if choices.toggles.gamestream {
                lines.last() + " --gamestream"@
            } else {
                lines.last()
            },
        ),
    );
    let shared = plan::and_if(
        built,
        choices.toggles.clipboard,
        plan::env_of("PUNKTFUNK_CLIPBOARD"@, "files"@),
    );
    plan::and_if(
        shared,
        choices.move_mgmt_port,
        plan::env_of(
            "PUNKTFUNK_MGMT_BIND"@,
            "0.0.0.0:"@ + text::decimal(choices.mgmt_port as nat),
        ),
    )
}

/// Steps whose last one ends the run.
pub open spec fn ending(s: Seq<plan::StepView>) -> Seq<plan::StepView> {
    s.update(s.len() - 1, plan::StepView { action: s.last().action, ends_run: true })
}

/// The steps that install a family.
pub open spec fn install_of(
    family: Family,
    cat: Catalogue,
    facts: Facts,
    choices: Choices,
) -> Seq<plan::StepView> {
    let repo = write_repo_of(family, cat, facts, choices);
    match family {
        Family::Apt => repo.push(
            plan::run_of(composed(pkg_lines(cat, "debian"@, "sudo apt install"@)[0], choices)),
        ),
        Family::Dnf => repo.push(
            plan::run_of(composed(pkg_lines(cat, "fedora"@, "sudo dnf install"@)[0], choices)),
        ),
        Family::Pacman => {
            let lines = pacman_lines(cat, facts);
            (repo + runs(lines.drop_last())).push(plan::run_of(composed(lines.last(), choices)))
        },
        Family::Sysext => {
            let lines = cat.lines("bazzite"@);
            runs(lines.drop_last()).push(
                plan::run_of(
                    if choices.channel == Channel::Canary {
                        lines.last() + " --channel canary"@
                    } else {
                        lines.last()
                    },
                ),
            )
        },
        Family::Steamos => ending(steamos_steps(cat, choices)),
        Family::Flatpak => runs(cat.lines("linux-client"@)),
    }
}

/// A family's own packages.
pub open spec fn base_pkgs_of(family: Family) -> Seq<Seq<char>> {
    match family {
        Family::Apt => Seq::<Seq<char>>::empty().push("punktfunk-host"@).push(
            "punktfunk-web"@,
        ).push("punktfunk-scripting"@),
        Family::Dnf => Seq::<Seq<char>>::empty().push("punktfunk"@).push("punktfunk-web"@).push(
            "punktfunk-scripting"@,
        ),
        Family::Pacman => Seq::<Seq<char>>::empty().push("punktfunk-host"@).push(
            "punktfunk-web"@,
        ).push("punktfunk-scripting"@),
        _ => Seq::empty(),
    }
}

/// Every package a switch has to move.
pub open spec fn switched_pkgs(family: Family, facts: Facts) -> Seq<Seq<char>> {
    plan::with_installed(base_pkgs_of(family), text::contents(facts.installed_pf@))
}

/// The steps that switch a family's channel. pacman drops the old section first, or both repos
/// stay; dnf walks a version back down by a distro sync.
pub open spec fn switch_of(
    family: Family,
    cat: Catalogue,
    facts: Facts,
    choices: Choices,
) -> Seq<plan::StepView> {
    let repo = write_repo_of(family, cat, facts, choices);
    let pkgs = switched_pkgs(family, facts);
    match family {
        Family::Apt => repo.push(plan::plain(plan::ActionView::AptSwitch { pkgs })),
        Family::Dnf => repo.push(
            plan::run_of(pkg_lines(cat, "fedora"@, "sudo dnf install"@)[0]),
        ).push(plan::run_of("sudo dnf distro-sync "@ + text::joined(pkgs, " "@))),
        Family::Pacman => (Seq::<plan::StepView>::empty().push(plan::run_of(PACMAN_RM_REPO@))
            + repo).push(plan::run_of("sudo pacman -Sy"@)).push(
            plan::plain(plan::ActionView::PacmanSwitch { pkgs }),
        ),
        Family::Sysext => {
            let lines = cat.lines("bazzite"@);
            runs(lines.drop_last()).push(
                plan::run_of(lines.last() + " --channel "@ + choices.channel.name()),
            )
        },
        Family::Steamos => install_of(family, cat, facts, choices),
        Family::Flatpak => install_of(family, cat, facts, choices),
    }
}

/// The line that removes what is installed.
pub open spec fn removal(verb: Seq<char>, facts: Facts) -> plan::StepView {
    plan::run_of(verb + text::joined(text::contents(facts.installed_pf@), " "@))
}

/// The steps that uninstall a family. User units go first; only what is installed is removed; the
/// Omarchy wiring comes off before the package that ships its remover.
pub open spec fn uninstall_of(family: Family, facts: Facts) -> Seq<plan::StepView> {
    let down = Seq::<plan::StepView>::empty().push(plan::run_of(UNIT_TEARDOWN@));
    let any = facts.installed_pf@.len() > 0;
    match family {
        Family::Apt => plan::and_if(down, any, removal("sudo apt purge "@, facts)).push(
            plan::run_of(
                "sudo rm -f /etc/apt/sources.list.d/punktfunk.list /etc/apt/keyrings/punktfunk.asc"@,
            ),
        ).push(plan::run_of("sudo apt update"@)),
        Family::Dnf => plan::and_if(down, any, removal("sudo dnf remove "@, facts)).push(
            plan::run_of("sudo rm -f /etc/yum.repos.d/punktfunk.repo"@),
        ),
        Family::Pacman => plan::and_if(
            plan::and_if(
                down,
                facts.omarchy,
                plan::plain(
                    plan::ActionView::RunIfPresent {
                        program: "punktfunk-omarchy"@,
                        cmd: "punktfunk-omarchy remove"@,
                        warn_if_missing: None,
                    },
                ),
            ),
            any,
            removal("sudo pacman -Rns "@, facts),
        ).push(plan::run_of(PACMAN_RM_REPO@)),
        Family::Sysext => down.push(plan::run_of("sudo punktfunk-sysext remove"@)),
        Family::Steamos => down.push(
            plan::run_of(
                "systemctl --user disable --now punktfunk-rebuild-check 2>/dev/null || true"@,
            ),
        ).push(
            plan::note_of(
                Level::Warn,
                "the on-device build has no uninstall script — the build container, the files under your home and the root-owned tuning come off by hand: "@
                    + DOCS@ + "/uninstall#steamos--steam-deck-host-on-device-build"@,
            ),
        ),
        Family::Flatpak => Seq::<plan::StepView>::empty().push(
            plan::run_of("flatpak uninstall --user "@ + FLATPAK_APP@),
        ),
    }
}

/// Some line satisfies the apt, dnf or pacman mark of a channel.
pub open spec fn canary_baseurl(l: Seq<char>) -> bool {
    text::begins(l, "baseurl="@) && text::holds(l, "-canary"@)
}

/// A line is a section header, white space at its end aside.
pub open spec fn is_section(l: Seq<char>, section: Seq<char>) -> bool {
    text::trim_back(l, Sep::Space) == section
}

pub open spec fn any_section(lines: Seq<Seq<char>>, section: Seq<char>) -> bool {
    exists|i: int| 0 <= i < lines.len() && is_section(#[trigger] lines[i], section)
}

pub open spec fn any_canary_baseurl(lines: Seq<Seq<char>>) -> bool {
    exists|i: int| 0 <= i < lines.len() && canary_baseurl(#[trigger] lines[i])
}

/// The channel of the sysext's own record: what its first `CHANNEL=` line says.
pub open spec fn sysext_channel(lines: Seq<Seq<char>>) -> Channel {
    let i = text::first_with(lines, "CHANNEL="@, 0);
    if i < lines.len() && text::trimmed(lines[i].skip("CHANNEL="@.len() as int), Sep::Space)
        == "canary"@ {
        Channel::Canary
    } else {
        Channel::Stable
    }
}

/// The channel a box is on, from its repo file and whether the host program is there. Only a
/// family with packages knows one; the sysext's record is written only for a chosen channel, so
/// the program breaks the tie.
pub open spec fn channel_of(
    family: Family,
    repo_file: Option<Seq<char>>,
    host_on_path: bool,
) -> Option<Channel> {
    match family {
        Family::Apt => match repo_file {
            Some(t) => Some(
                if text::holds(t, " canary main"@) {
                    Channel::Canary
                } else {
                    Channel::Stable
                },
            ),
            None => None,
        },
        Family::Dnf => match repo_file {
            Some(t) => Some(
                if any_canary_baseurl(text::lines_of(t)) {
                    Channel::Canary
                } else {
                    Channel::Stable
                },
            ),
            None => None,
        },
        Family::Pacman => match repo_file {
            Some(t) => if any_section(text::lines_of(t), "[punktfunk-canary]"@) {
                Some(Channel::Canary)
            } else if any_section(text::lines_of(t), "[punktfunk]"@) {
                Some(Channel::Stable)
            } else {
                None
            },
            None => None,
        },
        Family::Sysext => if host_on_path {
            Some(
                sysext_channel(
                    text::lines_of(
                        match repo_file {
                            Some(t) => t,
                            None => ""@,
                        },
                    ),
                ),
            )
        } else {
            None
        },
        _ => None,
    }
}

/// The package of a `dpkg-query` line, when it is installed.
pub open spec fn dpkg_pkg(line: Seq<char>) -> Option<Seq<char>> {
    let w = text::words(line);
    if w.len() >= 2 && w[1] == "installed"@ {
        Some(w[0])
    } else {
        None
    }
}

pub open spec fn dpkg_pkgs(lines: Seq<Seq<char>>) -> Seq<Seq<char>>
    decreases lines.len(),
{
    if lines.len() == 0 {
        Seq::empty()
    } else {
        let rest = dpkg_pkgs(lines.drop_last());
        match dpkg_pkg(lines.last()) {
            Some(p) => rest.push(p),
            None => rest,
        }
    }
}

pub open spec fn pacman_pkgs(lines: Seq<Seq<char>>) -> Seq<Seq<char>>
    decreases lines.len(),
{
    if lines.len() == 0 {
        Seq::empty()
    } else {
        let rest = pacman_pkgs(lines.drop_last());
        let l = text::trimmed(lines.last(), Sep::Space);
        if text::begins(l, "punktfunk"@) {
            rest.push(l)
        } else {
            rest
        }
    }
}

/// The installed packages a family's query lists; none when it could not be asked.
pub open spec fn installed_of(family: Family, listed: Option<Seq<char>>) -> Seq<Seq<char>> {
    match listed {
        None => Seq::empty(),
        Some(t) => match family {
            Family::Apt => dpkg_pkgs(text::lines_of(t)),
            Family::Dnf => text::words(t),
            Family::Pacman => pacman_pkgs(text::lines_of(t)),
            _ => Seq::empty(),
        },
    }
}

fn has_section(lines: &Vec<&str>, section: &str) -> (r: bool)
    ensures
        r == any_section(text::views(lines@), section@),
{
    let ghost l = text::views(lines@);
    let mut i: usize = 0;
    while i < lines.len()
        invariant
            i <= lines@.len(),
            l == text::views(lines@),
            forall|k: int| 0 <= k < i ==> !is_section(#[trigger] l[k], section@),
        decreases lines@.len() - i,
    {
        assert(l[i as int] == lines@[i as int]@);
        assert(i < l.len());
        if text::same(text::trim_end(lines[i], Sep::Space), section) {
            return true;
        }
        i = i + 1;
    }
    assert(l.len() == lines@.len());
    false
}

fn has_canary_baseurl(lines: &Vec<&str>) -> (r: bool)
    ensures
        r == any_canary_baseurl(text::views(lines@)),
{
    let ghost l = text::views(lines@);
    let mut i: usize = 0;
    while i < lines.len()
        invariant
            i <= lines@.len(),
            l == text::views(lines@),
            forall|k: int| 0 <= k < i ==> !canary_baseurl(#[trigger] l[k]),
        decreases lines@.len() - i,
    {
        assert(l[i as int] == lines@[i as int]@);
        assert(i < l.len());
        if text::starts_with(lines[i], "baseurl=") && text::contains(lines[i], "-canary") {
            return true;
        }
        i = i + 1;
    }
    assert(l.len() == lines@.len());
    false
}

fn read_sysext(lines: &Vec<&str>) -> (c: Channel)
    ensures
        c == sysext_channel(text::views(lines@)),
{
    let ghost l = text::views(lines@);
    let mut i: usize = 0;
    while i < lines.len()
        invariant
            i <= lines@.len(),
            l == text::views(lines@),
            text::first_with(l, "CHANNEL="@, 0) == text::first_with(l, "CHANNEL="@, i as int),
        decreases lines@.len() - i,
    {
        assert(l[i as int] == lines@[i as int]@);
        match text::strip_prefix(lines[i], "CHANNEL=") {
            Some(v) => {
                assert(i < l.len());
                if text::same(text::trim(v, Sep::Space), "canary") {
                    return Channel::Canary;
                } else {
                    return Channel::Stable;
                }
            },
            None => {},
        }
        i = i + 1;
    }
    Channel::Stable
}

/// A package family at work.
#[derive(Clone, Copy, Debug, PartialEq, Eq, Structural)]
pub struct PkgBackend {
    pub family: Family,
}

/// The family's backend.
pub fn backend(family: Family) -> (b: PkgBackend)
    ensures
        b == (PkgBackend { family }),
{
    PkgBackend { family }
}

proof fn lemma_marker_is_pacman(l: Seq<char>)
    requires
        text::begins(l, "sudo pacman -S"@),
    ensures
        text::begins(l, "sudo pacman"@),
{
    reveal_strlit("sudo pacman -S");
    reveal_strlit("sudo pacman");
    let long = "sudo pacman -S"@;
    let short = "sudo pacman"@;
    assert(long.take(short.len() as int) =~= short);
    assert(l.take(short.len() as int) =~= l.take(long.len() as int).take(short.len() as int));
}

fn filter_pacman(lines: &Vec<String>) -> (out: Vec<String>)
    ensures
        text::contents(out@) == text::contents(lines@).filter(
            |l: Seq<char>| text::begins(l, "sudo pacman"@),
        ),
{
    let ghost all = text::contents(lines@);
    let ghost f = |l: Seq<char>| text::begins(l, "sudo pacman"@);
    let mut out: Vec<String> = text::no_texts();
    let mut i: usize = 0;
    proof {
        reveal(Seq::filter);
        assert(all.take(0) =~= Seq::<Seq<char>>::empty());
    }
    while i < lines.len()
        invariant
            i <= lines@.len(),
            all == text::contents(lines@),
            f == (|l: Seq<char>| text::begins(l, "sudo pacman"@)),
            text::contents(out@) == all.take(i as int).filter(f),
        decreases lines@.len() - i,
    {
        proof {
            reveal(Seq::filter);
            assert(all.take(i + 1).drop_last() =~= all.take(i as int));
            assert(all.take(i + 1).last() == lines@[i as int]@);
        }
        if text::starts_with(lines[i].as_str(), "sudo pacman") {
            out = text::with_text(out, lines[i].as_str());
        }
        i = i + 1;
    }
    assert(all.take(i as int) =~= all);
    out
}

proof fn lemma_filter_keeps_first(s: Seq<Seq<char>>, f: spec_fn(Seq<char>) -> bool)
    requires
        s.len() > 0,
        f(s[0]),
    ensures
        s.filter(f).len() > 0,
    decreases s.len(),
{
    reveal(Seq::filter);
    if s.len() > 1 {
        assert(s.drop_last()[0] == s[0]);
        lemma_filter_keeps_first(s.drop_last(), f);
    } else {
        assert(s.last() == s[0]);
    }
}

/// Splits the last text off.
fn split_last(lines: Vec<String>) -> (r: (Vec<String>, String))
    requires
        lines@.len() > 0,
    ensures
        text::contents(r.0@) == text::contents(lines@).drop_last(),
        r.1@ == text::contents(lines@).last(),
{
    let ghost all = lines@;
    let mut lines: Vec<String> = lines;
    let last: String = match lines.pop() {
        Some(s) => s,
        None => "".to_owned(),
    };
    proof {
        assert(last == all.last());
        assert(text::contents(lines@) =~= text::contents(all).drop_last());
        assert(text::contents(all).last() == all.last()@);
    }
    (lines, last)
}

impl PkgBackend {
    /// The family's own packages; dnf's host package goes by the project's bare name.
    pub fn base_pkgs(&self) -> (v: Vec<String>)
        ensures
            text::contents(v@) == base_pkgs_of(self.family),
    {
        match self.family {
            Family::Apt | Family::Pacman => text::with_text(
                text::with_text(text::with_text(text::no_texts(), "punktfunk-host"), "punktfunk-web"),
                "punktfunk-scripting",
            ),
            Family::Dnf => text::with_text(
                text::with_text(text::with_text(text::no_texts(), "punktfunk"), "punktfunk-web"),
                "punktfunk-scripting",
            ),
            _ => text::no_texts(),
        }
    }

    fn apt_repo(cat: &Catalogue, channel: Channel) -> (steps: Vec<Step>)
        requires
            cat.marked("debian"@, "sudo apt install"@),
        ensures
            plan::step_views(steps@) == repo_lines(
                *cat,
                "debian"@,
                "sudo apt install"@,
            ).map_values(|l: Seq<char>| plan::run_of(apt_line(l, channel))),
    {
        let (repo, _install): (Vec<String>, Vec<String>) = split_at(
            cat,
            "debian",
            "sudo apt install",
        );
        let ghost all = text::contents(repo@);
        let ghost f = |l: Seq<char>| plan::run_of(apt_line(l, channel));
        let mut steps: Vec<Step> = no_steps();
        let mut i: usize = 0;
        assert(plan::step_views(steps@) =~= all.take(0).map_values(f));
        while i < repo.len()
            invariant
                i <= repo@.len(),
                all == text::contents(repo@),
                f == (|l: Seq<char>| plan::run_of(apt_line(l, channel))),
                plan::step_views(steps@) == all.take(i as int).map_values(f),
            decreases repo@.len() - i,
        {
            if channel == Channel::Canary {
                let line: String = text::replace(repo[i].as_str(), " stable main", " canary main");
                put(&mut steps, Step::run(line.as_str()));
            } else {
                put(&mut steps, Step::run(repo[i].as_str()));
            }
            i = i + 1;
            assert(plan::step_views(steps@) =~= all.take(i as int).map_values(f));
        }
        assert(all.take(i as int) =~= all);
        steps
    }

    fn pacman_repo(cat: &Catalogue, entry: &str, channel: Channel) -> (steps: Vec<Step>)
        requires
            cat.marked(entry@, "sudo pacman -S"@),
        ensures
            plan::step_views(steps@) == repo_lines(*cat, entry@, "sudo pacman -S"@).map_values(
                |l: Seq<char>| plan::run_of(pacman_line(l, channel)),
            ),
    {
        let (repo, _install): (Vec<String>, Vec<String>) = split_at(cat, entry, "sudo pacman -S");
        let ghost all = text::contents(repo@);
        let ghost f = |l: Seq<char>| plan::run_of(pacman_line(l, channel));
        let mut steps: Vec<Step> = no_steps();
        let mut i: usize = 0;
        assert(plan::step_views(steps@) =~= all.take(0).map_values(f));
        while i < repo.len()
            invariant
                i <= repo@.len(),
                all == text::contents(repo@),
                f == (|l: Seq<char>| plan::run_of(pacman_line(l, channel))),
                plan::step_views(steps@) == all.take(i as int).map_values(f),
            decreases repo@.len() - i,
        {
            if channel == Channel::Canary {
                let guard: String = text::replace(
                    repo[i].as_str(),
                    "punktfunk\\]",
                    "punktfunk-canary\\]",
                );
                let line: String = text::replace(
                    guard.as_str(),
                    "[punktfunk]",
                    "[punktfunk-canary]",
                );
                put(&mut steps, Step::run(line.as_str()));
            } else {
                put(&mut steps, Step::run(repo[i].as_str()));
            }
            i = i + 1;
            assert(plan::step_views(steps@) =~= all.take(i as int).map_values(f));
        }
        assert(all.take(i as int) =~= all);
        steps
    }

    fn entry(facts: &Facts) -> (s: &'static str)
        ensures
            s@ == pacman_entry(*facts),
    {
        if facts.omarchy {
            "omarchy"
        } else {
            "arch"
        }
    }

    /// The steps that write the repo.
    pub fn write_repo(&self, cat: &Catalogue, facts: &Facts, choices: &Choices) -> (steps: Vec<
        Step,
    >)
        requires
            cat.splits(self.family, *facts),
        ensures
            plan::step_views(steps@) == write_repo_of(self.family, *cat, *facts, *choices),
    {
        match self.family {
            Family::Apt => Self::apt_repo(cat, choices.channel),
            Family::Dnf => {
                let (repo, _install): (Vec<String>, Vec<String>) = split_at(
                    cat,
                    "fedora",
                    "sudo dnf install",
                );
                let mut steps: Vec<Step> = no_steps();
                put(&mut steps, Step::run(text::join(&repo, "\n").as_str()));
                match &facts.rpm_group {
                    Some(g) => {
                        let path: String = match choices.channel {
                            Channel::Canary => g.clone().concat("-canary"),
                            Channel::Stable => g.clone(),
                        };
                        if !text::same(path.as_str(), "fedora-44") {
                            let cmd: String = "sudo sed -i 's|/rpm/fedora-44|/rpm/".to_owned().concat(
                                path.as_str(),
                            ).concat("|' /etc/yum.repos.d/punktfunk.repo");
                            put(&mut steps, Step::run(cmd.as_str()));
                        }
                    },
                    None => {},
                }
                steps
            },
            Family::Pacman => Self::pacman_repo(cat, Self::entry(facts), choices.channel),
            _ => no_steps(),
        }
    }

    fn steamos_install(cat: &Catalogue, choices: &Choices) -> (steps: Vec<Step>)
        requires
            cat.lines("steamos"@).len() > 0,
        ensures
            plan::step_views(steps@) == ending(steamos_steps(*cat, *choices)),
    {
        let lines: Vec<String> = install_lines(cat, "steamos");
        assert(text::contents(lines@).len() == lines@.len());
        let (clone, build): (Vec<String>, String) = split_last(lines);
        let ghost all = text::contents(clone@);
        let ghost f = |l: Seq<char>| plan::run_of("[ -d ~/punktfunk/.git ] || "@ + l);
        let mut steps: Vec<Step> = no_steps();
        let mut i: usize = 0;
        assert(plan::step_views(steps@) =~= all.take(0).map_values(f));
        while i < clone.len()
            invariant
                i <= clone@.len(),
                all == text::contents(clone@),
                f == (|l: Seq<char>| plan::run_of("[ -d ~/punktfunk/.git ] || "@ + l)),
                plan::step_views(steps@) == all.take(i as int).map_values(f),
            decreases clone@.len() - i,
        {
            let cmd: String = "[ -d ~/punktfunk/.git ] || ".to_owned().concat(clone[i].as_str());
            put(&mut steps, Step::run(cmd.as_str()));
            i = i + 1;
            assert(plan::step_views(steps@) =~= all.take(i as int).map_values(f));
        }
        assert(all.take(i as int) =~= all);
        put(
            &mut steps,
            Step::note(
                Level::Warn,
                "the build runs on this device — it asks for your sudo password first, then takes about 20 minutes on a first run (about a minute on a re-run) and prints nothing until it finishes",
            ),
        );
        let cmd: String = if choices.toggles.gamestream {
            build.concat(" --gamestream")
        } else {
            build
        };
        put(&mut steps, Step::run(cmd.as_str()));
        if choices.toggles.clipboard {
            put(&mut steps, Step::set_env("PUNKTFUNK_CLIPBOARD", "files"));
        }
        if choices.move_mgmt_port {
            let bind: String = "0.0.0.0:".to_owned().concat(
                text::decimal_u64(choices.mgmt_port as u64).as_str(),
            );
            put(&mut steps, Step::set_env("PUNKTFUNK_MGMT_BIND", bind.as_str()));
        }
        let ghost planned = plan::step_views(steps@);
        let ghost before = steps@;
        assert(planned.len() == steps@.len());
        match steps.pop() {
            Some(last) => {
                let ended: Step = Step { action: last.action, ends_run: true };
                steps.push(ended);
                proof {
                    assert(planned.last() == before.last()@);
                    assert(plan::step_views(steps@) =~= ending(planned));
                }
            },
            None => {},
        }
        steps
    }

    /// The steps that install the family.
    pub fn install(&self, cat: &Catalogue, facts: &Facts, choices: &Choices) -> (steps: Vec<Step>)
        requires
            cat.serves(self.family, *facts),
        ensures
            plan::step_views(steps@) == install_of(self.family, *cat, *facts, *choices),
    {
        match self.family {
            Family::Apt => {
                let (_repo, install): (Vec<String>, Vec<String>) = split_at(
                    cat,
                    "debian",
                    "sudo apt install",
                );
                assert(text::contents(install@)[0] == install@[0]@);
                let mut steps: Vec<Step> = self.write_repo(cat, facts, choices);
                put(
                    &mut steps,
                    Step::run(compose_install(install[0].as_str(), choices).as_str()),
                );
                steps
            },
            Family::Dnf => {
                let (_repo, install): (Vec<String>, Vec<String>) = split_at(
                    cat,
                    "fedora",
                    "sudo dnf install",
                );
                assert(text::contents(install@)[0] == install@[0]@);
                let mut steps: Vec<Step> = self.write_repo(cat, facts, choices);
                put(
                    &mut steps,
                    Step::run(compose_install(install[0].as_str(), choices).as_str()),
                );
                steps
            },
            Family::Pacman => {
                let (_repo, install): (Vec<String>, Vec<String>) = split_at(
                    cat,
                    Self::entry(facts),
                    "sudo pacman -S",
                );
                let lines: Vec<String> = filter_pacman(&install);
                proof {
                    let all = text::contents(install@);
                    assert(all[0] == install@[0]@);
                    lemma_marker_is_pacman(all[0]);
                    lemma_filter_keeps_first(
                        all,
                        |l: Seq<char>| text::begins(l, "sudo pacman"@),
                    );
                    assert(text::contents(lines@).len() == lines@.len());
                }
                let (rest, last): (Vec<String>, String) = split_last(lines);
                let mut steps: Vec<Step> = self.write_repo(cat, facts, choices);
                put_all(&mut steps, run_lines(&rest));
                put(&mut steps, Step::run(compose_install(last.as_str(), choices).as_str()));
                steps
            },
            Family::Sysext => {
                let lines: Vec<String> = install_lines(cat, "bazzite");
                assert(text::contents(lines@).len() == lines@.len());
                let (fetch, last): (Vec<String>, String) = split_last(lines);
                let mut steps: Vec<Step> = run_lines(&fetch);
                let cmd: String = if choices.channel == Channel::Canary {
                    last.concat(" --channel canary")
                } else {
                    last
                };
                put(&mut steps, Step::run(cmd.as_str()));
                steps
            },
            Family::Steamos => Self::steamos_install(cat, choices),
            Family::Flatpak => run_lines(&install_lines(cat, "linux-client")),
        }
    }

    /// The steps that switch the channel.
    pub fn switch(&self, cat: &Catalogue, facts: &Facts, choices: &Choices) -> (steps: Vec<Step>)
        requires
            cat.serves(self.family, *facts),
        ensures
            plan::step_views(steps@) == switch_of(self.family, *cat, *facts, *choices),
    {
        match self.family {
            Family::Apt => {
                let mut steps: Vec<Step> = self.write_repo(cat, facts, choices);
                let pkgs: Vec<String> = switch_pkgs(self.base_pkgs(), &facts.installed_pf);
                put(&mut steps, Step { action: StepAction::AptSwitch { pkgs }, ends_run: false });
                steps
            },
            Family::Dnf => {
                let (_repo, install): (Vec<String>, Vec<String>) = split_at(
                    cat,
                    "fedora",
                    "sudo dnf install",
                );
                assert(text::contents(install@)[0] == install@[0]@);
                let mut steps: Vec<Step> = self.write_repo(cat, facts, choices);
                put(&mut steps, Step::run(install[0].as_str()));
                let pkgs: Vec<String> = switch_pkgs(self.base_pkgs(), &facts.installed_pf);
                let cmd: String = "sudo dnf distro-sync ".to_owned().concat(
                    text::join(&pkgs, " ").as_str(),
                );
                put(&mut steps, Step::run(cmd.as_str()));
                steps
            },
            Family::Pacman => {
                let mut steps: Vec<Step> = no_steps();
                put(&mut steps, Step::run(PACMAN_RM_REPO));
                put_all(&mut steps, self.write_repo(cat, facts, choices));
                put(&mut steps, Step::run("sudo pacman -Sy"));
                let pkgs: Vec<String> = switch_pkgs(self.base_pkgs(), &facts.installed_pf);
                put(
                    &mut steps,
                    Step { action: StepAction::PacmanSwitch { pkgs }, ends_run: false },
                );
                steps
            },
            Family::Sysext => {
                let lines: Vec<String> = install_lines(cat, "bazzite");
                assert(text::contents(lines@).len() == lines@.len());
                let (fetch, last): (Vec<String>, String) = split_last(lines);
                let mut steps: Vec<Step> = run_lines(&fetch);
                let cmd: String = last.concat(" --channel ").concat(choices.channel.as_str());
                put(&mut steps, Step::run(cmd.as_str()));
                steps
            },
            _ => self.install(cat, facts, choices),
        }
    }

    /// The steps that uninstall the family.
    pub fn uninstall(&self, facts: &Facts) -> (steps: Vec<Step>)
        ensures
            plan::step_views(steps@) == uninstall_of(self.family, *facts),
    {
        let mut steps: Vec<Step> = no_steps();
        if self.family == Family::Flatpak {
            let cmd: String = "flatpak uninstall --user ".to_owned().concat(FLATPAK_APP);
            put(&mut steps, Step::run(cmd.as_str()));
            return steps;
        }
        put(&mut steps, Step::run(UNIT_TEARDOWN));
        let any: bool = facts.installed_pf.len() > 0;
        let pkgs: String = text::join(&facts.installed_pf, " ");
        match self.family {
            Family::Apt => {
                if any {
                    put(
                        &mut steps,
                        Step::run("sudo apt purge ".to_owned().concat(pkgs.as_str()).as_str()),
                    );
                }
                put(
                    &mut steps,
                    Step::run(
                        "sudo rm -f /etc/apt/sources.list.d/punktfunk.list /etc/apt/keyrings/punktfunk.asc",
                    ),
                );
                put(&mut steps, Step::run("sudo apt update"));
            },
            Family::Dnf => {
                if any {
                    put(
                        &mut steps,
                        Step::run("sudo dnf remove ".to_owned().concat(pkgs.as_str()).as_str()),
                    );
                }
                put(&mut steps, Step::run("sudo rm -f /etc/yum.repos.d/punktfunk.repo"));
            },
            Family::Pacman => {
                if facts.omarchy {
                    put(
                        &mut steps,
                        Step {
                            action: StepAction::RunIfPresent {
                                program: "punktfunk-omarchy".to_owned(),
                                cmd: "punktfunk-omarchy remove".to_owned(),
                                warn_if_missing: None,
                            },
                            ends_run: false,
                        },
                    );
                }
                if any {
                    put(
                        &mut steps,
                        Step::run("sudo pacman -Rns ".to_owned().concat(pkgs.as_str()).as_str()),
                    );
                }
                put(&mut steps, Step::run(PACMAN_RM_REPO));
            },
            Family::Sysext => {
                put(&mut steps, Step::run("sudo punktfunk-sysext remove"));
            },
            Family::Steamos => {
                put(
                    &mut steps,
                    Step::run(
                        "systemctl --user disable --now punktfunk-rebuild-check 2>/dev/null || true",
                    ),
                );
                let note: String =
                    "the on-device build has no uninstall script — the build container, the files under your home and the root-owned tuning come off by hand: ".to_owned().concat(
                    DOCS,
                ).concat("/uninstall#steamos--steam-deck-host-on-device-build");
                put(&mut steps, Step::note(Level::Warn, note.as_str()));
            },
            Family::Flatpak => {},
        }
        steps
    }

    /// The channel the box is on.
    pub fn current_channel(&self, repo_file: Option<&str>, host_on_path: bool) -> (c: Option<
        Channel,
    >)
        ensures
            c == channel_of(self.family, text::opt_view(repo_file), host_on_path),
    {
        match self.family {
            Family::Apt => match repo_file {
                Some(t) => Some(
                    if text::contains(t, " canary main") {
                        Channel::Canary
                    } else {
                        Channel::Stable
                    },
                ),
                None => None,
            },
            Family::Dnf => match repo_file {
                Some(t) => Some(
                    if has_canary_baseurl(&text::lines(t)) {
                        Channel::Canary
                    } else {
                        Channel::Stable
                    },
                ),
                None => None,
            },
            Family::Pacman => match repo_file {
                Some(t) => {
                    let lines: Vec<&str> = text::lines(t);
                    if has_section(&lines, "[punktfunk-canary]") {
                        Some(Channel::Canary)
                    } else if has_section(&lines, "[punktfunk]") {
                        Some(Channel::Stable)
                    } else {
                        None
                    }
                },
                None => None,
            },
            Family::Sysext => if host_on_path {
                let t: &str = match repo_file {
                    Some(t) => t,
                    None => "",
                };
                Some(read_sysext(&text::lines(t)))
            } else {
                None
            },
            _ => None,
        }
    }

    /// The installed packages, from what the family's query listed.
    pub fn installed_pf(&self, listed: Option<&str>) -> (v: Vec<String>)
        ensures
            text::contents(v@) == installed_of(self.family, text::opt_view(listed)),
    {
        let t: &str = match listed {
            Some(t) => t,
            None => {
                return text::no_texts();
            },
        };
        match self.family {
            Family::Apt => {
                let lines: Vec<&str> = text::lines(t);
                let ghost all = text::views(lines@);
                let mut out: Vec<String> = text::no_texts();
                let mut i: usize = 0;
                assert(all.take(0) =~= Seq::<Seq<char>>::empty());
                while i < lines.len()
                    invariant
                        i <= lines@.len(),
                        all == text::views(lines@),
                        text::contents(out@) == dpkg_pkgs(all.take(i as int)),
                    decreases lines@.len() - i,
                {
                    let words: Vec<&str> = text::split_words(lines[i]);
                    proof {
                        assert(all.take(i + 1).drop_last() =~= all.take(i as int));
                        assert(all.take(i + 1).last() == lines@[i as int]@);
                        let w = text::views(words@);
                        assert(w.len() == words@.len());
                        if words@.len() >= 2 {
                            assert(w[0] == words@[0]@ && w[1] == words@[1]@);
                        }
                    }
                    if words.len() >= 2 && text::same(words[1], "installed") {
                        out = text::with_text(out, words[0]);
                    }
                    i = i + 1;
                }
                assert(all.take(i as int) =~= all);
                out
            },
            Family::Dnf => {
                let words: Vec<&str> = text::split_words(t);
                let ghost all = text::views(words@);
                let mut out: Vec<String> = text::no_texts();
                let mut i: usize = 0;
                assert(all.take(0) =~= Seq::<Seq<char>>::empty());
                while i < words.len()
                    invariant
                        i <= words@.len(),
                        all == text::views(words@),
                        text::contents(out@) == all.take(i as int),
                    decreases words@.len() - i,
                {
                    out = text::with_text(out, words[i]);
                    i = i + 1;
                    assert(text::contents(out@) =~= all.take(i as int));
                }
                assert(all.take(i as int) =~= all);
                out
            },
            Family::Pacman => {
                let lines: Vec<&str> = text::lines(t);
                let ghost all = text::views(lines@);
                let mut out: Vec<String> = text::no_texts();
                let mut i: usize = 0;
                assert(all.take(0) =~= Seq::<Seq<char>>::empty());
                while i < lines.len()
                    invariant
                        i <= lines@.len(),
                        all == text::views(lines@),
                        text::contents(out@) == pacman_pkgs(all.take(i as int)),
                    decreases lines@.len() - i,
                {
                    let l: &str = text::trim(lines[i], Sep::Space);
                    proof {
                        assert(all.take(i + 1).drop_last() =~= all.take(i as int));
                        assert(all.take(i + 1).last() == lines@[i as int]@);
                    }
                    if text::starts_with(l, "punktfunk") {
                        out = text::with_text(out, l);
                    }
                    i = i + 1;
                }
                assert(all.take(i as int) =~= all);
                out
            },
            _ => text::no_texts(),
        }
    }
}

/// The lines and the floor of a platform are those of the first entry of its id; an id that no
/// entry has has neither.
pub proof fn a_platform_is_found_by_its_id(
    cat: &Catalogue,
    id: &str,
    lines: Vec<String>,
    f: String,
    i: int,
)
    requires
        call_ensures(install_lines, (cat, id), lines),
        call_ensures(floor, (cat, id), f),
    ensures
        0 <= i < cat.platforms@.len() && cat.platforms@[i].id@ == id@ && (forall|k: int|
            0 <= k < i ==> (#[trigger] cat.platforms@[k]).id@ != id@) ==> text::contents(lines@)
            == text::contents(cat.platforms@[i].install@) && f@ == cat.platforms@[i].floor@,
        (forall|k: int|
            0 <= k < cat.platforms@.len() ==> (#[trigger] cat.platforms@[k]).id@ != id@)
            ==> lines@.len() == 0 && f@.len() == 0,
{
    reveal_strlit("");
    let n = cat.platforms@.len() as int;
    if 0 <= i < n && cat.platforms@[i].id@ == id@ && (forall|k: int|
        0 <= k < i ==> (#[trigger] cat.platforms@[k]).id@ != id@) {
        lemma_place(*cat, id@, 0, i);
    }
    if forall|k: int| 0 <= k < n ==> (#[trigger] cat.platforms@[k]).id@ != id@ {
        lemma_place(*cat, id@, 0, n);
        assert(text::contents(lines@).len() == lines@.len());
    }
}

proof fn lemma_place(cat: Catalogue, id: Seq<char>, k: int, i: int)
    requires
        0 <= k <= i <= cat.platforms@.len(),
        i < cat.platforms@.len() ==> cat.platforms@[i].id@ == id,
        forall|j: int| k <= j < i ==> (#[trigger] cat.platforms@[j]).id@ != id,
    ensures
        cat.place(id, k) == i,
    decreases i - k,
{
    if k < i {
        lemma_place(cat, id, k + 1, i);
    }
}

/// A page's lines are the repo block and the install one after the other, cut at the first line
/// that begins with the marker.
pub proof fn a_page_is_cut_at_its_marker(
    cat: &Catalogue,
    id: &str,
    marker: &str,
    lines: Vec<String>,
    r: (Vec<String>, Vec<String>),
)
    requires
        call_ensures(install_lines, (cat, id), lines),
        call_ensures(split_at, (cat, id, marker), r),
        cat.marked(id@, marker@),
    ensures
        text::contents(r.0@) + text::contents(r.1@) == text::contents(lines@),
        r.1@.len() > 0,
        text::begins(r.1@[0]@, marker@),
        forall|i: int| 0 <= i < r.0@.len() ==> !text::begins((#[trigger] r.0@[i])@, marker@),
{
    let all = text::contents(lines@);
    lemma_first_with(all, marker@, 0);
    let at = text::first_with(all, marker@, 0);
    assert(all.take(at) + all.skip(at) =~= all);
    assert(text::contents(r.0@).len() == r.0@.len());
    assert forall|i: int| 0 <= i < r.0@.len() implies !text::begins(
        (#[trigger] r.0@[i])@,
        marker@,
    ) by {
        assert(text::contents(r.0@)[i] == r.0@[i]@);
        assert(all.take(at)[i] == all[i]);
    }
}

proof fn lemma_first_with(list: Seq<Seq<char>>, p: Seq<char>, k: int)
    requires
        0 <= k <= list.len(),
    ensures
        k <= text::first_with(list, p, k) <= list.len(),
        text::first_with(list, p, k) < list.len() ==> text::begins(
            list[text::first_with(list, p, k)],
            p,
        ),
        forall|j: int|
            k <= j < text::first_with(list, p, k) ==> !text::begins(#[trigger] list[j], p),
    decreases list.len() - k,
{
    if k < list.len() && !text::begins(list[k], p) {
        lemma_first_with(list, p, k + 1);
    }
}

/// A catalogue serves a family exactly where it has the line that the family's install begins
/// with, or any line at all where it takes them as they stand; the flatpak needs none.
pub proof fn a_family_is_served_by_its_line(
    cat: &Catalogue,
    facts: &Facts,
    family: Family,
    r: bool,
    id: &str,
    lines: Vec<String>,
)
    requires
        call_ensures(Catalogue::can_serve, (cat, family, facts), r),
        call_ensures(install_lines, (cat, id), lines),
        id@ == match family {
            Family::Apt => "debian"@,
            Family::Dnf => "fedora"@,
            Family::Pacman => if facts.omarchy {
                "omarchy"@
            } else {
                "arch"@
            },
            Family::Sysext => "bazzite"@,
            Family::Steamos => "steamos"@,
            Family::Flatpak => "linux-client"@,
        },
    ensures
        family == Family::Apt ==> (r <==> exists|i: int|
            0 <= i < lines@.len() && text::begins((#[trigger] lines@[i])@, "sudo apt install"@)),
        family == Family::Dnf ==> (r <==> exists|i: int|
            0 <= i < lines@.len() && text::begins((#[trigger] lines@[i])@, "sudo dnf install"@)),
        family == Family::Pacman ==> (r <==> exists|i: int|
            0 <= i < lines@.len() && text::begins((#[trigger] lines@[i])@, "sudo pacman -S"@)),
        family == Family::Sysext || family == Family::Steamos ==> (r <==> lines@.len() > 0),
        family == Family::Flatpak ==> r,
{
    let all = text::contents(lines@);
    assert(all.len() == lines@.len());
    lemma_marked(lines@, "sudo apt install"@);
    lemma_marked(lines@, "sudo dnf install"@);
    lemma_marked(lines@, "sudo pacman -S"@);
}

proof fn lemma_marked(lines: Seq<String>, p: Seq<char>)
    ensures
        text::first_with(text::contents(lines), p, 0) < lines.len() <==> exists|i: int|
            0 <= i < lines.len() && text::begins((#[trigger] lines[i])@, p),
{
    let all = text::contents(lines);
    lemma_first_with(all, p, 0);
    let at = text::first_with(all, p, 0);
    if at < lines.len() {
        assert(all[at] == lines[at]@);
    }
    if exists|i: int| 0 <= i < lines.len() && text::begins((#[trigger] lines[i])@, p) {
        let i = choose|i: int| 0 <= i < lines.len() && text::begins((#[trigger] lines[i])@, p);
        assert(all[i] == lines[i]@);
    }
}

/// A catalogue that is fit serves every family on every box.
pub proof fn a_fit_catalogue_serves_all(
    cat: &Catalogue,
    fit: bool,
    family: Family,
    facts: &Facts,
    r: bool,
)
    requires
        call_ensures(Catalogue::is_fit, (cat,), fit),
        call_ensures(Catalogue::can_serve, (cat, family, facts), r),
    ensures
        fit ==> r,
{
}

/// On the stable channel the repo block is run as the page has it; on the other one the name of
/// the channel is put in its place, and only there. A family without a repo writes none.
pub proof fn the_repo_is_the_pages_own(
    b: &PkgBackend,
    cat: &Catalogue,
    facts: &Facts,
    c: &Choices,
    steps: Vec<Step>,
    id: &str,
    marker: &str,
    r: (Vec<String>, Vec<String>),
    i: int,
)
    requires
        call_ensures(PkgBackend::write_repo, (b, cat, facts, c), steps),
        call_ensures(split_at, (cat, id, marker), r),
        0 <= i < r.0@.len(),
    ensures
        b.family == Family::Apt && id@ == "debian"@ && marker@ == "sudo apt install"@
            ==> steps@.len() == r.0@.len() && steps@[i]@.action == plan::ActionView::Run(
            if c.channel == Channel::Stable {
                r.0@[i]@
            } else {
                text::replaced(r.0@[i]@, " stable main"@, " canary main"@)
            },
        ),
        b.family == Family::Pacman && id@ == (if facts.omarchy {
            "omarchy"@
        } else {
            "arch"@
        }) && marker@ == "sudo pacman -S"@ ==> steps@.len() == r.0@.len() && steps@[i]@.action
            == plan::ActionView::Run(
            if c.channel == Channel::Stable {
                r.0@[i]@
            } else {
                text::replaced(
                    text::replaced(r.0@[i]@, "punktfunk\\]"@, "punktfunk-canary\\]"@),
                    "[punktfunk]"@,
                    "[punktfunk-canary]"@,
                )
            },
        ),
        b.family == Family::Sysext || b.family == Family::Steamos || b.family == Family::Flatpak
            ==> steps@.len() == 0,
{
    assert(plan::step_views(steps@).len() == steps@.len());
    let repo = text::contents(r.0@);
    assert(repo.len() == r.0@.len() && repo[i] == r.0@[i]@);
    if i < steps@.len() {
        assert(plan::step_views(steps@)[i] == steps@[i]@);
    }
}

/// The rpm repo is written in one piece, and then pointed at the box's own group and channel
/// unless the page's group is already that.
pub proof fn the_rpm_repo_is_pointed_at_the_group(
    b: &PkgBackend,
    cat: &Catalogue,
    facts: &Facts,
    c: &Choices,
    steps: Vec<Step>,
    id: &str,
    marker: &str,
    r: (Vec<String>, Vec<String>),
)
    requires
        b.family == Family::Dnf,
        call_ensures(PkgBackend::write_repo, (b, cat, facts, c), steps),
        id@ == "fedora"@,
        marker@ == "sudo dnf install"@,
        call_ensures(split_at, (cat, id, marker), r),
    ensures
        steps@.len() >= 1,
        steps@[0]@.action == plan::ActionView::Run(text::joined(text::contents(r.0@), "\n"@)),
        facts.rpm_group is None ==> steps@.len() == 1,
        facts.rpm_group matches Some(g) ==> ({
            let path = if c.channel == Channel::Canary {
                g@ + "-canary"@
            } else {
                g@
            };
            if path == "fedora-44"@ {
                steps@.len() == 1
            } else {
                steps@.len() == 2 && steps@[1]@.action == plan::ActionView::Run(
                    "sudo sed -i 's|/rpm/fedora-44|/rpm/"@ + path
                        + "|' /etc/yum.repos.d/punktfunk.repo"@,
                )
            }
        }),
{
    let s = plan::step_views(steps@);
    assert(s.len() == steps@.len());
    assert(s[0] == steps@[0]@);
    if steps@.len() > 1 {
        assert(s[1] == steps@[1]@);
    }
}

/// An install is the repo and then the page's own line: as it stands for the host, with the
/// client behind it for both, and for the client alone with the client in place of whatever of
/// ours the line named.
pub proof fn an_install_is_the_repo_and_the_line(
    b: &PkgBackend,
    cat: &Catalogue,
    facts: &Facts,
    c: &Choices,
    repo: Vec<Step>,
    steps: Vec<Step>,
    id: &str,
    marker: &str,
    r: (Vec<String>, Vec<String>),
)
    requires
        b.family == Family::Apt && id@ == "debian"@ && marker@ == "sudo apt install"@ || b.family
            == Family::Dnf && id@ == "fedora"@ && marker@ == "sudo dnf install"@,
        call_ensures(PkgBackend::write_repo, (b, cat, facts, c), repo),
        call_ensures(PkgBackend::install, (b, cat, facts, c), steps),
        call_ensures(split_at, (cat, id, marker), r),
    ensures
        steps@.len() == repo@.len() + 1,
        forall|i: int| 0 <= i < repo@.len() ==> (#[trigger] steps@[i])@ == repo@[i]@,
        !steps@.last().ends_run,
        !c.components.client ==> steps@.last()@.action == plan::ActionView::Run(r.1@[0]@),
        c.components.client && c.components.host ==> steps@.last()@.action
            == plan::ActionView::Run(r.1@[0]@ + " punktfunk-client"@),
        c.components.client && !c.components.host ==> (
        steps@.last()@.action matches plan::ActionView::Run(cmd) && text::ends(
            cmd,
            " punktfunk-client"@,
        )),
{
    let s = plan::step_views(steps@);
    let p = plan::step_views(repo@);
    assert(s.len() == steps@.len() && p.len() == repo@.len());
    assert(text::contents(r.1@)[0] == r.1@[0]@);
    assert(s.last() == steps@.last()@);
    assert forall|i: int| 0 <= i < repo@.len() implies (#[trigger] steps@[i])@ == repo@[i]@ by {
        assert(s[i] == p[i]);
        assert(s[i] == steps@[i]@);
    }
    let line = r.1@[0]@;
    let head = text::joined(head_words(text::words(line)), " "@);
    let whole = head + " punktfunk-client"@;
    assert(whole.skip(whole.len() - " punktfunk-client"@.len()) =~= " punktfunk-client"@);
}

/// For the client alone nothing else of ours is named: the words before the client are those of
/// the line up to the first of ours.
pub proof fn the_client_alone_is_named_alone(
    b: &PkgBackend,
    cat: &Catalogue,
    facts: &Facts,
    c: &Choices,
    steps: Vec<Step>,
    id: &str,
    marker: &str,
    r: (Vec<String>, Vec<String>),
    k: int,
)
    requires
        b.family == Family::Apt && id@ == "debian"@ && marker@ == "sudo apt install"@ || b.family
            == Family::Dnf && id@ == "fedora"@ && marker@ == "sudo dnf install"@,
        c.components.client && !c.components.host,
        call_ensures(PkgBackend::install, (b, cat, facts, c), steps),
        call_ensures(split_at, (cat, id, marker), r),
        ({
            let w = text::words(r.1@[0]@);
            &&& 0 <= k <= w.len()
            &&& k < w.len() ==> text::begins(w[k], "punktfunk"@)
            &&& forall|j: int| 0 <= j < k ==> !text::begins(#[trigger] w[j], "punktfunk"@)
        }),
    ensures
        steps@.len() > 0,
        steps@.last()@.action == plan::ActionView::Run(
            text::joined(text::words(r.1@[0]@).take(k), " "@) + " punktfunk-client"@,
        ),
{
    let s = plan::step_views(steps@);
    assert(s.len() == steps@.len());
    assert(text::contents(r.1@)[0] == r.1@[0]@);
    assert(s.last() == steps@.last()@);
    let w = text::words(r.1@[0]@);
    lemma_first_with(w, "punktfunk"@, 0);
    let at = text::first_with(w, "punktfunk"@, 0);
    if at < k {
        assert(!text::begins(w[at], "punktfunk"@));
    }
    if k < at {
        assert(!text::begins(w[k], "punktfunk"@));
    }
}

/// The image-based system runs the page's lines as they stand, with the channel named behind the
/// last: always on a switch, on an install only where it is not the stable one. The flatpak's
/// lines are run as they stand.
pub proof fn an_image_runs_the_pages_lines(
    cat: &Catalogue,
    facts: &Facts,
    c: &Choices,
    steps: Vec<Step>,
    moved: Vec<Step>,
    packed: Vec<Step>,
    id: &str,
    lines: Vec<String>,
    app: &str,
    own: Vec<String>,
)
    requires
        call_ensures(PkgBackend::install, (&PkgBackend { family: Family::Sysext }, cat, facts, c), steps),
        call_ensures(PkgBackend::switch, (&PkgBackend { family: Family::Sysext }, cat, facts, c), moved),
        call_ensures(PkgBackend::install, (&PkgBackend { family: Family::Flatpak }, cat, facts, c), packed),
        id@ == "bazzite"@,
        app@ == "linux-client"@,
        call_ensures(install_lines, (cat, id), lines),
        call_ensures(install_lines, (cat, app), own),
        lines@.len() > 0,
    ensures
        steps@.len() == lines@.len() && moved@.len() == lines@.len() && packed@.len() == own@.len(),
        forall|i: int|
            0 <= i < lines@.len() - 1 ==> (#[trigger] steps@[i])@.action == plan::ActionView::Run(
                lines@[i]@,
            ) && moved@[i]@.action == plan::ActionView::Run(lines@[i]@),
        steps@.last()@.action == plan::ActionView::Run(
            if c.channel == Channel::Canary {
                lines@.last()@ + " --channel canary"@
            } else {
                lines@.last()@
            },
        ),
        moved@.last()@.action == plan::ActionView::Run(
            lines@.last()@ + " --channel "@ + (if c.channel == Channel::Canary {
                "canary"@
            } else {
                "stable"@
            }),
        ),
        forall|i: int|
            0 <= i < own@.len() ==> (#[trigger] packed@[i])@.action == plan::ActionView::Run(
                own@[i]@,
            ),
{
    let l = text::contents(lines@);
    let o = text::contents(own@);
    let s = plan::step_views(steps@);
    let m = plan::step_views(moved@);
    let k = plan::step_views(packed@);
    assert(l.len() == lines@.len() && o.len() == own@.len());
    assert(s.len() == steps@.len() && m.len() == moved@.len() && k.len() == packed@.len());
    assert(l.last() == lines@.last()@);
    assert(s.last() == steps@.last()@ && m.last() == moved@.last()@);
    assert forall|i: int| 0 <= i < lines@.len() - 1 implies (#[trigger] steps@[i])@.action
        == plan::ActionView::Run(lines@[i]@) && moved@[i]@.action == plan::ActionView::Run(
        lines@[i]@,
    ) by {
        assert(s[i] == steps@[i]@ && m[i] == moved@[i]@);
        assert(l.drop_last()[i] == lines@[i]@);
    }
    assert forall|i: int| 0 <= i < own@.len() implies (#[trigger] packed@[i])@.action
        == plan::ActionView::Run(own@[i]@) by {
        assert(k[i] == packed@[i]@);
        assert(o[i] == own@[i]@);
    }
}

/// The on-device build clones only once, is told of the older protocol where that is on, and ends
/// the run with its last step, whatever that is; no step before it does.
pub proof fn the_build_ends_the_run(
    cat: &Catalogue,
    facts: &Facts,
    c: &Choices,
    steps: Vec<Step>,
    id: &str,
    lines: Vec<String>,
    i: int,
)
    requires
        call_ensures(PkgBackend::install, (&PkgBackend { family: Family::Steamos }, cat, facts, c), steps),
        id@ == "steamos"@,
        call_ensures(install_lines, (cat, id), lines),
        lines@.len() > 0,
    ensures
        steps@.len() == lines@.len() + 1 + (if c.toggles.clipboard {
            1int
        } else {
            0
        }) + (if c.move_mgmt_port {
            1int
        } else {
            0
        }),
        steps@.last().ends_run,
        0 <= i < steps@.len() - 1 ==> !steps@[i].ends_run,
        0 <= i < lines@.len() - 1 ==> steps@[i]@.action == plan::ActionView::Run(
            "[ -d ~/punktfunk/.git ] || "@ + lines@[i]@,
        ),
        steps@[lines@.len() as int]@.action == plan::ActionView::Run(
            if c.toggles.gamestream {
                lines@.last()@ + " --gamestream"@
            } else {
                lines@.last()@
            },
        ),
        c.toggles.clipboard ==> steps@[lines@.len() as int + 1]@.action == (plan::ActionView::SetEnv {
            key: "PUNKTFUNK_CLIPBOARD"@,
            value: "files"@,
        }),
{
    let l = text::contents(lines@);
    let s = plan::step_views(steps@);
    let n = l.len() as int;
    assert(l.len() == lines@.len());
    assert(s.len() == steps@.len());
    assert(l.last() == lines@.last()@);
    assert(s.last() == steps@.last()@);
    let p = steamos_steps(*cat, *c);
    assert(s == ending(p));
    assert(s[n] == steps@[n]@);
    if c.toggles.clipboard {
        assert(s[n + 1] == steps@[n + 1]@);
    }
    if 0 <= i < steps@.len() - 1 {
        assert(s[i] == steps@[i]@);
        assert(s[i] == p[i]);
        if i < n - 1 {
            assert(l.drop_last()[i] == lines@[i]@);
        }
    }
}

/// A switch moves everything that is installed, by the family's own means: apt and pacman look
/// once the repo stands, dnf syncs by name.
pub proof fn a_switch_moves_what_is_installed(
    b: &PkgBackend,
    cat: &Catalogue,
    facts: &Facts,
    c: &Choices,
    repo: Vec<Step>,
    steps: Vec<Step>,
    base: Vec<String>,
    pkgs: Vec<String>,
)
    requires
        call_ensures(PkgBackend::write_repo, (b, cat, facts, c), repo),
        call_ensures(PkgBackend::switch, (b, cat, facts, c), steps),
        call_ensures(PkgBackend::base_pkgs, (b,), base),
        call_ensures(switch_pkgs, (base, &facts.installed_pf), pkgs),
    ensures
        b.family == Family::Apt ==> steps@.len() == repo@.len() + 1 && steps@.last()@.action == (
        plan::ActionView::AptSwitch { pkgs: text::contents(pkgs@) }),
        b.family == Family::Dnf ==> steps@.len() == repo@.len() + 2 && steps@.last()@.action
            == plan::ActionView::Run(
            "sudo dnf distro-sync "@ + text::joined(text::contents(pkgs@), " "@),
        ),
        b.family == Family::Pacman ==> steps@.len() == repo@.len() + 3 && steps@.last()@.action == (
        plan::ActionView::PacmanSwitch { pkgs: text::contents(pkgs@) })
            && steps@[0]@.action == plan::ActionView::Run(PACMAN_RM_REPO@)
            && steps@[steps@.len() - 2]@.action == plan::ActionView::Run("sudo pacman -Sy"@),
        b.family == Family::Apt || b.family == Family::Pacman ==> text::contents(base@)
            == seq!["punktfunk-host"@, "punktfunk-web"@, "punktfunk-scripting"@],
        b.family == Family::Dnf ==> text::contents(base@)
            == seq!["punktfunk"@, "punktfunk-web"@, "punktfunk-scripting"@],
        b.family != Family::Apt && b.family != Family::Pacman && b.family != Family::Dnf
            ==> base@.len() == 0,
{
    let s = plan::step_views(steps@);
    let r = plan::step_views(repo@);
    assert(s.len() == steps@.len() && r.len() == repo@.len());
    assert(text::contents(base@).len() == base@.len());
    if s.len() > 0 {
        assert(s.last() == steps@.last()@);
        assert(s[0] == steps@[0]@);
    }
    if s.len() > 1 {
        assert(s[s.len() - 2] == steps@[steps@.len() - 2]@);
    }
    assert(text::contents(base@) =~= base_pkgs_of(b.family));
    if b.family == Family::Apt || b.family == Family::Pacman {
        assert(text::contents(base@) =~= seq![
            "punktfunk-host"@,
            "punktfunk-web"@,
            "punktfunk-scripting"@,
        ]);
    }
    if b.family == Family::Dnf {
        assert(text::contents(base@) =~= seq![
            "punktfunk"@,
            "punktfunk-web"@,
            "punktfunk-scripting"@,
        ]);
    }
}

/// An uninstall takes the user units off first and what is installed by one line after; the repo
/// goes with it. The flatpak has no units.
pub proof fn an_uninstall_takes_off_what_is_there(
    b: &PkgBackend,
    facts: &Facts,
    steps: Vec<Step>,
    pkgs: String,
    sep: &str,
    n: int,
)
    requires
        call_ensures(PkgBackend::uninstall, (b, facts), steps),
        sep@ == " "@,
        call_ensures(text::join, (&facts.installed_pf, sep), pkgs),
        n == if facts.installed_pf@.len() > 0 {
            1int
        } else {
            0
        },
    ensures
        steps@.len() > 0,
        b.family != Family::Flatpak ==> steps@[0]@.action == plan::ActionView::Run(
            "systemctl --user disable --now punktfunk-host punktfunk-web punktfunk-scripting 2>/dev/null || true"@,
        ),
        b.family == Family::Flatpak ==> steps@.len() == 1 && steps@[0]@.action
            == plan::ActionView::Run("flatpak uninstall --user "@ + "io.unom.Punktfunk"@),
        b.family == Family::Apt ==> {
            &&& steps@.len() == 3 + n
            &&& n == 1 ==> steps@[1]@.action == plan::ActionView::Run("sudo apt purge "@ + pkgs@)
            &&& steps@[1 + n]@.action == plan::ActionView::Run(
                "sudo rm -f /etc/apt/sources.list.d/punktfunk.list /etc/apt/keyrings/punktfunk.asc"@,
            )
            &&& steps@[2 + n]@.action == plan::ActionView::Run("sudo apt update"@)
        },
        b.family == Family::Dnf ==> {
            &&& steps@.len() == 2 + n
            &&& n == 1 ==> steps@[1]@.action == plan::ActionView::Run("sudo dnf remove "@ + pkgs@)
            &&& steps@[1 + n]@.action == plan::ActionView::Run(
                "sudo rm -f /etc/yum.repos.d/punktfunk.repo"@,
            )
        },
        b.family == Family::Pacman ==> {
            let o: int = if facts.omarchy {
                1
            } else {
                0
            };
            &&& steps@.len() == 2 + n + o
            &&& facts.omarchy ==> steps@[1]@.action == (plan::ActionView::RunIfPresent {
                program: "punktfunk-omarchy"@,
                cmd: "punktfunk-omarchy remove"@,
                warn_if_missing: None,
            })
            &&& n == 1 ==> steps@[1 + o]@.action == plan::ActionView::Run(
                "sudo pacman -Rns "@ + pkgs@,
            )
            &&& steps@.last()@.action == plan::ActionView::Run(
                "sudo sed -i '/^\\[punktfunk\\(-canary\\)\\{0,1\\}\\]$/,/^Server = /d' /etc/pacman.conf"@,
            )
        },
        b.family == Family::Sysext ==> steps@.len() == 2 && steps@[1]@.action
            == plan::ActionView::Run("sudo punktfunk-sysext remove"@),
        b.family == Family::Steamos ==> steps@.len() == 3 && steps@[2]@.action is Note,
{
    let s = plan::step_views(steps@);
    assert(s.len() == steps@.len());
    assert(s[0] == steps@[0]@);
    if s.len() > 1 {
        assert(s[1] == steps@[1]@);
    }
    if s.len() > 2 {
        assert(s[2] == steps@[2]@);
    }
    if s.len() > 3 {
        assert(s[3] == steps@[3]@);
    }
}

/// The channel of a box is read from its repo file: apt's line, the base address of dnf's, the
/// section of pacman's or the record of the image; without the file there is none, and the other
/// families know none.
pub proof fn a_channel_is_read_from_the_repo(
    family: Family,
    file: &str,
    host: bool,
    c: Option<Channel>,
    none: Option<Channel>,
    i: int,
)
    requires
        call_ensures(PkgBackend::current_channel, (&PkgBackend { family }, Some(file), host), c),
        call_ensures(PkgBackend::current_channel, (&PkgBackend { family }, None::<&str>, host), none),
    ensures
        family == Family::Apt ==> c == Some(
            if text::holds(file@, " canary main"@) {
                Channel::Canary
            } else {
                Channel::Stable
            },
        ),
        family == Family::Dnf ==> c is Some,
        family == Family::Dnf && c == Some(Channel::Stable) && 0 <= i < text::lines_of(file@).len()
            ==> !(text::begins(text::lines_of(file@)[i], "baseurl="@) && text::holds(
            text::lines_of(file@)[i],
            "-canary"@,
        )),
        family == Family::Dnf && c == Some(Channel::Canary) ==> exists|k: int|
            0 <= k < text::lines_of(file@).len() && text::begins(
                #[trigger] text::lines_of(file@)[k],
                "baseurl="@,
            ) && text::holds(text::lines_of(file@)[k], "-canary"@),
        family == Family::Pacman && 0 <= i < text::lines_of(file@).len() && text::trim_back(
            text::lines_of(file@)[i],
            Sep::Space,
        ) == "[punktfunk-canary]"@ ==> c == Some(Channel::Canary),
        family == Family::Pacman && 0 <= i < text::lines_of(file@).len() && text::trim_back(
            text::lines_of(file@)[i],
            Sep::Space,
        ) == "[punktfunk]"@ ==> c is Some,
        family == Family::Pacman && c == Some(Channel::Stable) ==> exists|k: int|
            0 <= k < text::lines_of(file@).len() && text::trim_back(
                #[trigger] text::lines_of(file@)[k],
                Sep::Space,
            ) == "[punktfunk]"@,
        family == Family::Sysext ==> (c is Some <==> host) && (none is Some <==> host),
        family == Family::Steamos || family == Family::Flatpak ==> c is None && none is None,
        family == Family::Apt || family == Family::Dnf || family == Family::Pacman ==> none is None,
{
    let l = text::lines_of(file@);
    if 0 <= i < l.len() {
        assert(family == Family::Dnf && canary_baseurl(l[i]) ==> any_canary_baseurl(l));
        assert(is_section(l[i], "[punktfunk-canary]"@) ==> any_section(l, "[punktfunk-canary]"@));
        assert(is_section(l[i], "[punktfunk]"@) ==> any_section(l, "[punktfunk]"@));
    }
}

/// The image's record says its channel in its first line of that name.
pub proof fn an_images_record_says_its_channel(
    file: &str,
    c: Option<Channel>,
    i: int,
)
    requires
        call_ensures(
            PkgBackend::current_channel,
            (&PkgBackend { family: Family::Sysext }, Some(file), true),
            c,
        ),
        0 <= i <= text::lines_of(file@).len(),
        forall|k: int|
            0 <= k < i ==> !text::begins(#[trigger] text::lines_of(file@)[k], "CHANNEL="@),
        i < text::lines_of(file@).len() ==> text::begins(text::lines_of(file@)[i], "CHANNEL="@),
    ensures
        i == text::lines_of(file@).len() ==> c == Some(Channel::Stable),
        i < text::lines_of(file@).len() ==> (c == Some(Channel::Canary) <==> text::trimmed(
            text::lines_of(file@)[i].skip(8),
            Sep::Space,
        ) == "canary"@) && c is Some,
{
    let l = text::lines_of(file@);
    lemma_first_with(l, "CHANNEL="@, 0);
    let at = text::first_with(l, "CHANNEL="@, 0);
    reveal_strlit("CHANNEL=");
    if at < i {
        assert(!text::begins(l[at], "CHANNEL="@));
    }
}

/// What dpkg lists counts only where it is installed, what pacman lists only where it is ours,
/// and all that rpm lists counts; nothing is installed where nobody could be asked.
pub proof fn only_the_installed_counts(
    family: Family,
    listed: &str,
    v: Vec<String>,
    none: Vec<String>,
    p: Seq<char>,
)
    requires
        call_ensures(PkgBackend::installed_pf, (&PkgBackend { family }, Some(listed)), v),
        call_ensures(PkgBackend::installed_pf, (&PkgBackend { family }, None::<&str>), none),
    ensures
        none@.len() == 0,
        family == Family::Apt ==> (text::contents(v@).contains(p) <==> exists|i: int|
            0 <= i < text::lines_of(listed@).len() && text::words(
                #[trigger] text::lines_of(listed@)[i],
            ).len() >= 2 && text::words(text::lines_of(listed@)[i])[1] == "installed"@ && text::words(
                text::lines_of(listed@)[i],
            )[0] == p),
        family == Family::Dnf ==> text::contents(v@) == text::words(listed@),
        family == Family::Pacman ==> (text::contents(v@).contains(p) <==> exists|i: int|
            0 <= i < text::lines_of(listed@).len() && text::trimmed(
                #[trigger] text::lines_of(listed@)[i],
                Sep::Space,
            ) == p && text::begins(p, "punktfunk"@)),
        family == Family::Sysext || family == Family::Steamos || family == Family::Flatpak
            ==> v@.len() == 0,
{
    assert(text::contents(v@).len() == v@.len() && text::contents(none@).len() == none@.len());
    let l = text::lines_of(listed@);
    lemma_dpkg(l, p);
    lemma_pacman(l, p);
}

proof fn lemma_dpkg(l: Seq<Seq<char>>, p: Seq<char>)
    ensures
        dpkg_pkgs(l).contains(p) <==> exists|i: int|
            0 <= i < l.len() && text::words(#[trigger] l[i]).len() >= 2 && text::words(l[i])[1]
                == "installed"@ && text::words(l[i])[0] == p,
    decreases l.len(),
{
    if l.len() > 0 {
        let d = l.drop_last();
        lemma_dpkg(d, p);
        let all = dpkg_pkgs(l);
        let rest = dpkg_pkgs(d);
        if rest.contains(p) {
            let k = choose|k: int| 0 <= k < rest.len() && rest[k] == p;
            assert(all[k] == p);
            let i = choose|i: int|
                0 <= i < d.len() && text::words(#[trigger] d[i]).len() >= 2 && text::words(d[i])[1]
                    == "installed"@ && text::words(d[i])[0] == p;
            assert(l[i] == d[i]);
        }
        if dpkg_pkg(l.last()) == Some(p) {
            assert(all[rest.len() as int] == p);
            assert(text::words(l[l.len() - 1])[0] == p);
        }
        if all.contains(p) {
            let k = choose|k: int| 0 <= k < all.len() && all[k] == p;
            if k < rest.len() {
                assert(rest[k] == p);
            }
        }
        if exists|i: int|
            0 <= i < l.len() && text::words(#[trigger] l[i]).len() >= 2 && text::words(l[i])[1]
                == "installed"@ && text::words(l[i])[0] == p {
            let i = choose|i: int|
                0 <= i < l.len() && text::words(#[trigger] l[i]).len() >= 2 && text::words(l[i])[1]
                    == "installed"@ && text::words(l[i])[0] == p;
            if i < d.len() {
                assert(d[i] == l[i]);
                assert(text::words(d[i])[0] == p);
            }
        }
    }
}

proof fn lemma_pacman(l: Seq<Seq<char>>, p: Seq<char>)
    ensures
        pacman_pkgs(l).contains(p) <==> exists|i: int|
            0 <= i < l.len() && text::trimmed(#[trigger] l[i], Sep::Space) == p && text::begins(
                p,
                "punktfunk"@,
            ),
    decreases l.len(),
{
    if l.len() > 0 {
        let d = l.drop_last();
        lemma_pacman(d, p);
        let all = pacman_pkgs(l);
        let rest = pacman_pkgs(d);
        if rest.contains(p) {
            let k = choose|k: int| 0 <= k < rest.len() && rest[k] == p;
            assert(all[k] == p);
            let i = choose|i: int|
                0 <= i < d.len() && text::trimmed(#[trigger] d[i], Sep::Space) == p;
            assert(l[i] == d[i]);
        }
        if text::trimmed(l.last(), Sep::Space) == p && text::begins(p, "punktfunk"@) {
            assert(all[rest.len() as int] == p);
            assert(text::trimmed(l[l.len() - 1], Sep::Space) == p);
        }
        if all.contains(p) {
            let k = choose|k: int| 0 <= k < all.len() && all[k] == p;
            if k < rest.len() {
                assert(rest[k] == p);
            }
        }
        if exists|i: int|
            0 <= i < l.len() && text::trimmed(#[trigger] l[i], Sep::Space) == p && text::begins(
                p,
                "punktfunk"@,
            ) {
            let i = choose|i: int|
                0 <= i < l.len() && text::trimmed(#[trigger] l[i], Sep::Space) == p;
            if i < d.len() {
                assert(d[i] == l[i]);
                assert(text::trimmed(d[i], Sep::Space) == p);
            }
        }
    }
}

/// An item of the page with an id is an entry of the catalogue; its floor is the text it gives,
/// and an item without an id is none.
pub proof fn an_item_with_an_id_is_an_entry(doc: &Json, c: Catalogue, i: int)
    requires
        call_ensures(Catalogue::of, (doc,), c),
        ({
            let items = json::items_of(json::member_of(doc@, "platforms"@));
            0 <= i < items.len()
        }),
    ensures
        ({
            let items = json::items_of(json::member_of(doc@, "platforms"@));
            &&& json::text_of(json::member_of(items[i], "id"@)) matches Some(id) ==> exists|k: int|
                0 <= k < c.platforms@.len() && (#[trigger] c.platforms@[k]).id@ == id && (
                json::text_of(json::member_of(items[i], "floor"@)) matches Some(f)
                    ==> c.platforms@[k].floor@ == f)
            &&& c.platforms@.len() <= items.len()
        }),
{
    let items = json::items_of(json::member_of(doc@, "platforms"@));
    let e = entries_in(items, items.len() as int);
    assert(c@.len() == c.platforms@.len());
    lemma_entries(items, items.len() as int, i);
    if let Some(id) = json::text_of(json::member_of(items[i], "id"@)) {
        let x = entry_in(items[i])->0;
        let k = choose|k: int| 0 <= k < e.len() && e[k] == x;
        assert(c@[k] == c.platforms@[k]@);
        assert(c.platforms@[k].id@ == id);
    }
}

proof fn lemma_entries(items: Seq<json::JsonView>, n: int, i: int)
    requires
        0 <= n <= items.len(),
    ensures
        entries_in(items, n).len() <= n,
        0 <= i < n && entry_in(items[i]) is Some ==> entries_in(items, n).contains(
            entry_in(items[i])->0,
        ),
    decreases n,
{
    if n > 0 {
        lemma_entries(items, n - 1, i);
        let all = entries_in(items, n);
        let rest = entries_in(items, n - 1);
        if 0 <= i < n && entry_in(items[i]) is Some {
            let x = entry_in(items[i])->0;
            if i < n - 1 {
                let k = choose|k: int| 0 <= k < rest.len() && rest[k] == x;
                assert(all[k] == x);
            } else {
                assert(all[rest.len() as int] == x);
            }
        }
    }
}

/// A backend is of the family it was asked for.
pub proof fn a_backend_is_of_its_family(family: Family, b: PkgBackend)
    requires
        call_ensures(backend, (family,), b),
    ensures
        b.family == family,
{
}

} // verus!
