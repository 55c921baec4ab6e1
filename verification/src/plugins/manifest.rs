//! What an installed plugin declares about itself: the paths it reads, whether it needs the
//! network, and the commands the host may run for it.
//!
//! The caller says whose rules paths follow, finds the packages, and hands over the text of the
//! grants file.

use crate::plugins::paths;
use crate::plugins::paths::PathRules;
use crate::text;
use std::collections::BTreeMap;
use vstd::prelude::*;
use vstd::string::StringExecFns;

verus! {

/// The shapes a template parameter may take: a closed set of character classes. No value but
/// [`ParamKind::Args`] may begin with a dash, or a program could read it as a flag.
#[derive(Clone, Copy, Debug, PartialEq, Eq, Structural)]
pub enum ParamKind {
    /// Printable text.
    Name,
    /// Letters, digits, dot, underscore and dash.
    Id,
    Digits,
    /// An absolute path.
    Path,
    /// Extra words, the operator's own flags.
    Args,
}

/// One command the host may run for a plugin.
pub struct ExecTemplate {
    pub exe: String,
    pub args: Vec<String>,
    /// Parameter name and what its value may look like.
    pub params: BTreeMap<String, ParamKind>,
    pub cwd: Option<String>,
}

/// A plugin's declaration.
pub struct PluginManifest {
    /// Must be 1: a later schema is refused, not guessed at.
    pub schema: u32,
    /// The id the plugin registers under.
    pub id: String,
    /// Paths the plugin reads, absolute or under `~/`.
    pub reads: Vec<String>,
    /// Paths it also writes.
    pub writes: Vec<String>,
    pub network: bool,
    /// Templates by name.
    pub templates: BTreeMap<String, ExecTemplate>,
}

/// A control character.
pub open spec fn is_control(c: char) -> bool {
    c <= '\u{1f}' || '\u{7f}' <= c <= '\u{9f}'
}

/// The length of a text in bytes.
pub open spec fn byte_len(s: Seq<char>) -> usize {
    vstd::utf8::encode_utf8(s).len() as usize
}

pub open spec fn has_control(s: Seq<char>) -> bool {
    exists|i: int| 0 <= i < s.len() && is_control(#[trigger] s[i])
}

/// `value` has the shape of `kind`.
pub open spec fn fits(kind: ParamKind, value: Seq<char>, rules: PathRules) -> bool {
    &&& value.len() > 0
    &&& !has_control(value)
    &&& kind != ParamKind::Args ==> value[0] != '-'
    &&& match kind {
        ParamKind::Name => byte_len(value) <= 128,
        ParamKind::Id => byte_len(value) <= 128 && forall|i: int|
            0 <= i < value.len() ==> crate::stats_recorder::id_char(#[trigger] value[i]),
        ParamKind::Digits => byte_len(value) <= 32 && forall|i: int|
            0 <= i < value.len() ==> text::is_digit(#[trigger] value[i]),
        ParamKind::Path => byte_len(value) <= 4096 && paths::is_absolute(rules, value),
        ParamKind::Args => byte_len(value) <= 256,
    }
}

/// Whether a value has the shape of its kind.
pub fn param_ok(kind: ParamKind, value: &str, rules: PathRules) -> (ok: bool)
    ensures
        ok == fits(kind, value@, rules),
{
    let v: Vec<char> = text::chars_of(value);
    if v.len() == 0 {
        return false;
    }
    let mut ids: bool = true;
    let mut digits: bool = true;
    let mut i: usize = 0;
    while i < v.len()
        invariant
            i <= v@.len(),
            v@ == value@,
            forall|k: int| 0 <= k < i ==> !is_control(#[trigger] value@[k]),
            ids == (forall|k: int| 0 <= k < i ==> crate::stats_recorder::id_char(#[trigger] value@[k])),
            digits == (forall|k: int| 0 <= k < i ==> text::is_digit(#[trigger] value@[k])),
        decreases v@.len() - i,
    {
        let c: char = v[i];
        assert(c == value@[i as int]);
        if c <= '\u{1f}' || ('\u{7f}' <= c && c <= '\u{9f}') {
            return false;
        }
        let digit: bool = '0' <= c && c <= '9';
        let id: bool = ('A' <= c && c <= 'Z') || ('a' <= c && c <= 'z') || digit || c == '.' || c
            == '_' || c == '-';
        ids = ids && id;
        digits = digits && digit;
        i = i + 1;
    }
    let len: usize = value.len();
    assert(len == byte_len(value@));
    match kind {
        ParamKind::Args => len <= 256,
        ParamKind::Name => v[0] != '-' && len <= 128,
        ParamKind::Id => v[0] != '-' && len <= 128 && ids,
        ParamKind::Digits => v[0] != '-' && len <= 32 && digits,
        ParamKind::Path => v[0] != '-' && len <= 4096 && paths::absolute(rules, value),
    }
}

/// A declared path with `~/` filled in; none when there is no home directory.
pub open spec fn expanded(
    p: Seq<char>,
    home: Option<Seq<char>>,
    rules: PathRules,
) -> Option<Seq<char>> {
    if text::begins(p, "~/"@) {
        match home {
            Some(h) => Some(paths::joined_path(rules, h, p.skip("~/"@.len() as int))),
            None => None,
        }
    } else {
        Some(p)
    }
}

/// The paths that can be filled in, in order.
pub open spec fn all_expanded(
    list: Seq<Seq<char>>,
    home: Option<Seq<char>>,
    rules: PathRules,
) -> Seq<Seq<char>>
    decreases list.len(),
{
    if list.len() == 0 {
        Seq::empty()
    } else {
        let rest = all_expanded(list.drop_last(), home, rules);
        match expanded(list.last(), home, rules) {
            Some(p) => rest.push(p),
            None => rest,
        }
    }
}

/// The home directory of its variable's value: none when unset or empty.
pub fn home_dir<'a>(var: Option<&'a str>) -> (h: Option<&'a str>)
    ensures
        text::opt_view(h) == match var {
            Some(v) if v@.len() > 0 => Some(v@),
            _ => None,
        },
{
    match var {
        Some(v) => if v.is_empty() {
            None
        } else {
            Some(v)
        },
        None => None,
    }
}

/// Fills in `~/`.
pub fn expand_home(p: &str, home: Option<&str>, rules: PathRules) -> (r: Option<String>)
    ensures
        text::opt_string(r) == expanded(p@, text::opt_view(home), rules),
{
    match text::strip_prefix(p, "~/") {
        Some(rest) => match home {
            Some(h) => Some(paths::join_path(rules, h, rest)),
            None => None,
        },
        None => Some(p.to_owned()),
    }
}

fn push_expanded(
    out: &mut Vec<String>,
    list: &Vec<String>,
    home: Option<&str>,
    rules: PathRules,
)
    ensures
        text::contents(final(out)@) == text::contents(old(out)@) + all_expanded(
            text::contents(list@),
            text::opt_view(home),
            rules,
        ),
{
    let ghost before = text::contents(out@);
    let ghost p = text::contents(list@);
    let ghost h = text::opt_view(home);
    let mut i: usize = 0;
    assert(p.take(0) =~= Seq::<Seq<char>>::empty());
    assert(before + all_expanded(p.take(0), h, rules) =~= before);
    while i < list.len()
        invariant
            i <= list@.len(),
            p == text::contents(list@),
            h == text::opt_view(home),
            text::contents(out@) == before + all_expanded(p.take(i as int), h, rules),
        decreases list@.len() - i,
    {
        let ghost sofar = out@;
        proof {
            assert(p.take(i + 1).drop_last() =~= p.take(i as int));
            assert(p.take(i + 1).last() == list@[i as int]@);
        }
        match expand_home(list[i].as_str(), home, rules) {
            Some(e) => {
                out.push(e);
                proof {
                    assert(text::contents(out@) =~= text::contents(sofar).push(e@));
                    assert(text::contents(out@) =~= before + all_expanded(p.take(i + 1), h, rules));
                }
            },
            None => {},
        }
        i = i + 1;
    }
    assert(p.take(i as int) =~= p);
}

impl PluginManifest {
    /// Every root the plugin may reach: what it declared, then what the operator granted it.
    pub open spec fn root_list(
        self,
        grants: Seq<Seq<char>>,
        home: Option<Seq<char>>,
        rules: PathRules,
    ) -> Seq<Seq<char>> {
        all_expanded(text::contents(self.reads@), home, rules) + all_expanded(
            text::contents(self.writes@),
            home,
            rules,
        ) + all_expanded(grants, home, rules)
    }

    /// Every root the plugin may reach, from what it was granted.
    pub fn roots_with(
        &self,
        grants: &Vec<String>,
        home: Option<&str>,
        rules: PathRules,
    ) -> (out: Vec<String>)
        ensures
            text::contents(out@) == self.root_list(
                text::contents(grants@),
                text::opt_view(home),
                rules,
            ),
    {
        let mut out: Vec<String> = Vec::new();
        let ghost h = text::opt_view(home);
        assert(text::contents(out@) =~= Seq::<Seq<char>>::empty());
        push_expanded(&mut out, &self.reads, home, rules);
        assert(text::contents(out@) =~= all_expanded(text::contents(self.reads@), h, rules));
        push_expanded(&mut out, &self.writes, home, rules);
        push_expanded(&mut out, grants, home, rules);
        out
    }

    /// Every root the plugin may reach. `file` is the text of the grants file, if it can be read.
    pub fn roots(
        &self,
        file: Option<&str>,
        home: Option<&str>,
        rules: PathRules,
    ) -> (out: Vec<String>)
        ensures
            text::contents(out@) == self.root_list(
                granted_in(grants_in(text::opt_view(file)), self.id@),
                text::opt_view(home),
                rules,
            ),
    {
        self.roots_with(&Grants::of_file(file).granted_to(self.id.as_str()), home, rules)
    }

    /// The plugin may reach a path: it is absolute, does not climb, and a root holds it.
    pub open spec fn reaches(
        self,
        p: Seq<char>,
        grants: Seq<Seq<char>>,
        home: Option<Seq<char>>,
        rules: PathRules,
    ) -> bool {
        &&& paths::is_absolute(rules, p)
        &&& !paths::climbs(rules, p)
        &&& exists|i: int|
            0 <= i < self.root_list(grants, home, rules).len() && paths::under(
                rules,
                p,
                #[trigger] self.root_list(grants, home, rules)[i],
            )
    }

    /// Whether a path is inside one of the roots. `file` is the text of the grants file, if it can
    /// be read.
    pub fn confines(
        &self,
        candidate: &str,
        file: Option<&str>,
        home: Option<&str>,
        rules: PathRules,
    ) -> (ok: bool)
        ensures
            ok == self.reaches(
                candidate@,
                granted_in(grants_in(text::opt_view(file)), self.id@),
                text::opt_view(home),
                rules,
            ),
    {
        let grants: Vec<String> = Grants::of_file(file).granted_to(self.id.as_str());
        self.confines_with(candidate, &grants, home, rules)
    }

    /// Whether a path is inside one of the roots, from what the plugin was granted. A part that
    /// climbs is refused, not resolved, so this needs no file system.
    pub fn confines_with(
        &self,
        candidate: &str,
        grants: &Vec<String>,
        home: Option<&str>,
        rules: PathRules,
    ) -> (ok: bool)
        ensures
            ok == self.reaches(
                candidate@,
                text::contents(grants@),
                text::opt_view(home),
                rules,
            ),
    {
        if !paths::absolute(rules, candidate) || paths::has_parent_part(rules, candidate) {
            return false;
        }
        let roots: Vec<String> = self.roots_with(grants, home, rules);
        let ghost r = self.root_list(text::contents(grants@), text::opt_view(home), rules);
        let mut i: usize = 0;
        while i < roots.len()
            invariant
                i <= roots@.len(),
                text::contents(roots@) == r,
                r == self.root_list(text::contents(grants@), text::opt_view(home), rules),
                paths::is_absolute(rules, candidate@),
                !paths::climbs(rules, candidate@),
                forall|k: int| 0 <= k < i ==> !paths::under(rules, candidate@, #[trigger] r[k]),
            decreases roots@.len() - i,
        {
            assert(r[i as int] == roots@[i as int]@);
            assert(i < r.len());
            if paths::is_under(rules, candidate, roots[i].as_str()) {
                return true;
            }
            i = i + 1;
        }
        assert(r.len() == roots@.len());
        false
    }

    /// Only a manifest of the known schema with an id counts.
    pub open spec fn is_usable(self) -> bool {
        self.schema == 1 && self.id@.len() > 0
    }

    pub fn usable(&self) -> (u: bool)
        ensures
            u == self.is_usable(),
    {
        self.schema == 1 && !self.id.as_str().is_empty()
    }
}

/// The last usable manifest of an id among the first `n`; -1 when there is none.
pub open spec fn provider_at(found: Seq<PluginManifest>, id: Seq<char>, n: int) -> int
    decreases n,
{
    if n <= 0 {
        -1
    } else if found[n - 1].is_usable() && found[n - 1].id@ == id {
        n - 1
    } else {
        provider_at(found, id, n - 1)
    }
}

/// The manifest that declares an id among those found: the last usable one.
pub fn for_provider(found: &Vec<PluginManifest>, id: &str) -> (i: Option<usize>)
    ensures
        i == ({
            let at = provider_at(found@, id@, found@.len() as int);
            if at < 0 {
                None
            } else {
                Some(at as usize)
            }
        }),
{
    let mut n: usize = found.len();
    while n > 0
        invariant
            n <= found@.len(),
            provider_at(found@, id@, found@.len() as int) == provider_at(found@, id@, n as int),
        decreases n,
    {
        let m: &PluginManifest = &found[n - 1];
        if m.usable() && text::same(m.id.as_str(), id) {
            return Some(n - 1);
        }
        n = n - 1;
    }
    None
}

/// The place of each manifest that stands for its id: the last usable one of it.
pub open spec fn stands(found: Seq<PluginManifest>, i: int) -> bool {
    0 <= i < found.len() && found[i].is_usable() && provider_at(
        found,
        found[i].id@,
        found.len() as int,
    ) == i
}

proof fn lemma_provider(found: Seq<PluginManifest>, id: Seq<char>, n: int)
    ensures
        -1 <= provider_at(found, id, n),
        n >= 0 ==> provider_at(found, id, n) < n,
    decreases n,
{
    if n > 0 {
        lemma_provider(found, id, n - 1);
    }
}

/// The installed plugins: the places of the manifests that stand for their ids, in order.
pub fn installed(found: &Vec<PluginManifest>) -> (out: Vec<usize>)
    ensures
        forall|a: int| 0 <= a < out@.len() ==> stands(found@, #[trigger] out@[a] as int),
        forall|i: int| #[trigger] stands(found@, i) ==> out@.contains(i as usize),
        forall|a: int, b: int|
            0 <= a < b < out@.len() ==> (#[trigger] out@[a]) < (#[trigger] out@[b]),
{
    let mut out: Vec<usize> = Vec::new();
    let mut i: usize = 0;
    while i < found.len()
        invariant
            i <= found@.len(),
            forall|a: int| 0 <= a < out@.len() ==> (#[trigger] out@[a]) < i,
            forall|a: int| 0 <= a < out@.len() ==> stands(found@, #[trigger] out@[a] as int),
            forall|k: int| 0 <= k < i && #[trigger] stands(found@, k) ==> out@.contains(k as usize),
            forall|a: int, b: int|
                0 <= a < b < out@.len() ==> (#[trigger] out@[a]) < (#[trigger] out@[b]),
        decreases found@.len() - i,
    {
        let ghost before = out@;
        let m: &PluginManifest = &found[i];
        proof {
            lemma_provider(found@, m.id@, found@.len() as int);
        }
        if m.usable() {
            match for_provider(found, m.id.as_str()) {
                Some(at) => {
                    if at == i {
                        out.push(i);
                        proof {
                            assert(out@[out@.len() - 1] == i);
                            assert(stands(found@, i as int));
                            assert forall|k: int|
                                0 <= k < i + 1 && #[trigger] stands(found@, k) implies out@.contains(
                                k as usize,
                            ) by {
                                if k < i {
                                    assert(before.contains(k as usize));
                                    let j = choose|j: int|
                                        0 <= j < before.len() && before[j] == k as usize;
                                    assert(out@[j] == k as usize);
                                }
                            }
                        }
                    }
                },
                None => {},
            }
        }
        i = i + 1;
    }
    out
}

/// The texts of grants: plugin ids with their directories.
pub open spec fn pairs_view(v: Seq<(String, Vec<String>)>) -> Seq<(Seq<char>, Seq<Seq<char>>)> {
    v.map_values(|e: (String, Vec<String>)| (e.0@, text::contents(e.1@)))
}

/// No id occurs twice.
pub open spec fn ids_once(pairs: Seq<(Seq<char>, Seq<Seq<char>>)>) -> bool {
    forall|i: int, j: int|
        0 <= i < j < pairs.len() ==> (#[trigger] pairs[i]).0 != (#[trigger] pairs[j]).0
}

/// The place of an id at or after `k`; the length when there is none.
pub open spec fn grant_place(
    pairs: Seq<(Seq<char>, Seq<Seq<char>>)>,
    id: Seq<char>,
    k: int,
) -> int
    decreases pairs.len() - k,
{
    if k < 0 || k >= pairs.len() {
        pairs.len() as int
    } else if pairs[k].0 == id {
        k
    } else {
        grant_place(pairs, id, k + 1)
    }
}

/// What a plugin was granted, as written.
pub open spec fn granted_in(
    pairs: Seq<(Seq<char>, Seq<Seq<char>>)>,
    id: Seq<char>,
) -> Seq<Seq<char>> {
    let i = grant_place(pairs, id, 0);
    if i < pairs.len() {
        pairs[i].1
    } else {
        Seq::empty()
    }
}

/// Grants with one more directory for a plugin; a directory it has stays as it is.
pub open spec fn with_grant(
    pairs: Seq<(Seq<char>, Seq<Seq<char>>)>,
    id: Seq<char>,
    dir: Seq<char>,
) -> Seq<(Seq<char>, Seq<Seq<char>>)> {
    let i = grant_place(pairs, id, 0);
    if i >= pairs.len() {
        pairs.push((id, Seq::empty().push(dir)))
    } else if pairs[i].1.contains(dir) {
        pairs
    } else {
        pairs.update(i, (id, pairs[i].1.push(dir)))
    }
}

/// The grants `serde_json` reads in a text, in the order of their ids; none when it refuses it.
pub uninterp spec fn grants_read(text: Seq<char>) -> Option<Seq<(Seq<char>, Seq<Seq<char>>)>>;

/// The text `serde_json` writes of grants; none when it fails.
pub uninterp spec fn grants_written(pairs: Seq<(Seq<char>, Seq<Seq<char>>)>) -> Option<Seq<char>>;

/// The grants of a file: none without one, and none in a text that cannot be read.
pub open spec fn grants_in(file: Option<Seq<char>>) -> Seq<(Seq<char>, Seq<Seq<char>>)> {
    match file {
        Some(t) => match grants_read(t) {
            Some(pairs) => pairs,
            None => Seq::empty(),
        },
        None => Seq::empty(),
    }
}

/// `serde_json::from_str` on a map from ids to lists of texts. What it reads, and whether it
/// refuses a text, follows from the text alone. Being a map's, no id is read twice.
#[verifier::external_body]
fn read_pairs(text: &str) -> (r: Result<Vec<(String, Vec<String>)>, serde_json::Error>)
    ensures
        match r {
            Ok(v) => grants_read(text@) == Some(pairs_view(v@)) && ids_once(pairs_view(v@)),
            Err(_) => grants_read(text@) is None,
        },
{
    let map: BTreeMap<String, Vec<String>> = serde_json::from_str(text)?;
    Ok(map.into_iter().collect())
}

/// `serde_json::to_string_pretty` on a map from ids to lists of texts. What it writes follows from
/// the map alone, and reading that text gives every id its list again.
#[verifier::external_body]
fn write_pairs(pairs: Vec<(String, Vec<String>)>) -> (r: Result<String, serde_json::Error>)
    requires
        ids_once(pairs_view(pairs@)),
    ensures
        match r {
            Ok(t) => grants_written(pairs_view(pairs@)) == Some(t@) && grants_read(t@) is Some
                && forall|id: Seq<char>| #[trigger]
                granted_in(grants_read(t@)->0, id) == granted_in(pairs_view(pairs@), id),
            Err(_) => grants_written(pairs_view(pairs@)) is None,
        },
{
    let map: BTreeMap<String, Vec<String>> = pairs.into_iter().collect();
    serde_json::to_string_pretty(&map)
}

/// The operator's grants, by plugin id.
pub struct Grants {
    pub entries: Vec<(String, Vec<String>)>,
}

impl View for Grants {
    type V = Seq<(Seq<char>, Seq<Seq<char>>)>;

    open spec fn view(&self) -> Seq<(Seq<char>, Seq<Seq<char>>)> {
        pairs_view(self.entries@)
    }
}

impl Grants {
    /// No id occurs twice.
    pub open spec fn wf(self) -> bool {
        ids_once(self@)
    }

    /// Reads the text of a grants file; none when it cannot be read.
    pub fn read(text: &str) -> (g: Option<Grants>)
        ensures
            match g {
                Some(g) => grants_read(text@) == Some(g@) && g.wf(),
                None => grants_read(text@) is None,
            },
    {
        match read_pairs(text) {
            Ok(entries) => Some(Grants { entries }),
            Err(_) => None,
        }
    }

    /// The grants of a text; none when it cannot be read.
    pub fn parse(text: &str) -> (g: Grants)
        ensures
            g@ == grants_in(Some(text@)),
            g.wf(),
    {
        match Grants::read(text) {
            Some(g) => g,
            None => Grants::none(),
        }
    }

    fn none() -> (g: Grants)
        ensures
            g@ == Seq::<(Seq<char>, Seq<Seq<char>>)>::empty(),
            g.wf(),
    {
        let g: Grants = Grants { entries: Vec::new() };
        assert(g@ =~= Seq::<(Seq<char>, Seq<Seq<char>>)>::empty());
        g
    }

    /// The grants of a file, from its text if there is one.
    pub fn of_file(file: Option<&str>) -> (g: Grants)
        ensures
            g@ == grants_in(text::opt_view(file)),
            g.wf(),
    {
        match file {
            Some(t) => Grants::parse(t),
            None => Grants::none(),
        }
    }

    fn position(&self, id: &str) -> (r: usize)
        ensures
            r == grant_place(self@, id@, 0),
            r <= self.entries@.len(),
    {
        let mut i: usize = 0;
        while i < self.entries.len()
            invariant
                i <= self.entries@.len(),
                grant_place(self@, id@, 0) == grant_place(self@, id@, i as int),
            decreases self.entries@.len() - i,
        {
            assert(self@[i as int].0 == self.entries@[i as int].0@);
            if text::same(self.entries[i].0.as_str(), id) {
                return i;
            }
            i = i + 1;
        }
        i
    }

    /// What a plugin was granted, as written.
    pub fn granted_to(&self, id: &str) -> (out: Vec<String>)
        ensures
            text::contents(out@) == granted_in(self@, id@),
    {
        let i: usize = self.position(id);
        if i < self.entries.len() {
            assert(self@[i as int].1 == text::contents(self.entries@[i as int].1@));
            text::copied(&self.entries[i].1)
        } else {
            text::no_texts()
        }
    }

    /// Grants a directory to a plugin, once.
    pub fn add_root(&mut self, id: &str, dir: &str)
        requires
            old(self).wf(),
        ensures
            final(self).wf(),
            final(self)@ == with_grant(old(self)@, id@, dir@),
    {
        let ghost before = self@;
        let i: usize = self.position(id);
        proof {
            lemma_grant_place(before, id@, 0);
        }
        if i < self.entries.len() {
            assert(before[i as int].1 == text::contents(self.entries@[i as int].1@));
            if !text::among(&self.entries[i].1, dir) {
                let paths: Vec<String> = text::with_text(text::copied(&self.entries[i].1), dir);
                self.entries.set(i, (id.to_owned(), paths));
                assert(self@ =~= with_grant(before, id@, dir@));
            }
        } else {
            let paths: Vec<String> = text::with_text(text::no_texts(), dir);
            self.entries.push((id.to_owned(), paths));
            assert(self@ =~= with_grant(before, id@, dir@));
        }
    }

    /// The text of a grants file.
    pub fn written(self) -> (body: String)
        requires
            self.wf(),
        ensures
            match grants_written(self@) {
                Some(t) => body@ == t && grants_read(body@) is Some && forall|id: Seq<char>|
                    #[trigger] granted_in(grants_read(body@)->0, id) == granted_in(self@, id),
                None => body@ == ""@,
            },
    {
        match write_pairs(self.entries) {
            Ok(t) => t,
            Err(_) => "".to_owned(),
        }
    }
}

proof fn lemma_grant_place(pairs: Seq<(Seq<char>, Seq<Seq<char>>)>, id: Seq<char>, k: int)
    requires
        0 <= k <= pairs.len(),
    ensures
        k <= grant_place(pairs, id, k) <= pairs.len(),
        grant_place(pairs, id, k) < pairs.len() ==> pairs[grant_place(pairs, id, k)].0 == id,
        forall|i: int|
            k <= i < grant_place(pairs, id, k) ==> (#[trigger] pairs[i]).0 != id,
    decreases pairs.len() - k,
{
    if k < pairs.len() && pairs[k].0 != id {
        lemma_grant_place(pairs, id, k + 1);
    }
}

/// The directories granted to a plugin by the text of the grants file, with `~/` filled in; what
/// cannot be filled in is left out. Without a file, and with one that cannot be read, none.
pub fn granted_roots(
    file: Option<&str>,
    id: &str,
    home: Option<&str>,
    rules: PathRules,
) -> (out: Vec<String>)
    ensures
        text::contents(out@) == all_expanded(
            granted_in(grants_in(text::opt_view(file)), id@),
            text::opt_view(home),
            rules,
        ),
{
    let written: Vec<String> = Grants::of_file(file).granted_to(id);
    let mut out: Vec<String> = text::no_texts();
    push_expanded(&mut out, &written, home, rules);
    assert(text::contents(out@) =~= all_expanded(
        text::contents(written@),
        text::opt_view(home),
        rules,
    ));
    out
}

/// A grant: every directory the plugin now has, and what the grants file now holds.
pub struct Granted {
    pub all: Vec<String>,
    pub body: String,
}

/// Grants a directory to a plugin and says what to write. The written text, read again, gives
/// every plugin what the grant left it with.
pub fn grant_root(file: Option<&str>, id: &str, dir: &str) -> (g: Granted)
    ensures
        ({
            let after = with_grant(grants_in(text::opt_view(file)), id@, dir@);
            &&& text::contents(g.all@) == granted_in(after, id@)
            &&& match grants_written(after) {
                Some(t) => g.body@ == t && forall|other: Seq<char>| #[trigger]
                    granted_in(grants_in(Some(g.body@)), other) == granted_in(after, other),
                None => g.body@ == ""@,
            }
        }),
{
    let mut grants: Grants = Grants::of_file(file);
    grants.add_root(id, dir);
    let all: Vec<String> = grants.granted_to(id);
    Granted { all, body: grants.written() }
}

/// A grant gives its plugin the directory, keeps what the plugin had, and leaves every other
/// plugin's grants as they were.
pub proof fn a_grant_stays_with_its_plugin(
    pairs: Seq<(Seq<char>, Seq<Seq<char>>)>,
    id: Seq<char>,
    dir: Seq<char>,
    other: Seq<char>,
)
    ensures
        granted_in(with_grant(pairs, id, dir), id) == if granted_in(pairs, id).contains(dir) {
            granted_in(pairs, id)
        } else {
            granted_in(pairs, id).push(dir)
        },
        other != id ==> granted_in(with_grant(pairs, id, dir), other) == granted_in(pairs, other),
{
    let after = with_grant(pairs, id, dir);
    lemma_grant_place(pairs, id, 0);
    lemma_grant_place(after, id, 0);
    lemma_grant_place(pairs, other, 0);
    lemma_grant_place(after, other, 0);
    let i = grant_place(pairs, id, 0);
    let j = grant_place(after, id, 0);
    let a = grant_place(pairs, other, 0);
    let b = grant_place(after, other, 0);
    if i >= pairs.len() {
        assert(after[pairs.len() as int].0 == id);
        if j < pairs.len() {
            assert(pairs[j].0 == id);
        }
        assert(granted_in(pairs, id).push(dir) =~= Seq::<Seq<char>>::empty().push(dir));
    } else {
        assert(after[i].0 == id);
        if j < i {
            assert(pairs[j].0 == id);
        }
    }
    if other != id {
        if a < pairs.len() {
            assert(after[a].0 == other);
            if b < a {
                assert(pairs[b].0 == other);
            }
        } else if b < after.len() {
            assert(after[b].0 == other);
            if b < pairs.len() {
                assert(pairs[b].0 == other);
            }
        }
    }
}

/// A path a plugin may reach is never one that climbs out of a root, and a root holds itself.
pub proof fn confinement(
    m: PluginManifest,
    p: Seq<char>,
    grants: Seq<Seq<char>>,
    home: Option<Seq<char>>,
    rules: PathRules,
)
    ensures
        m.reaches(p, grants, home, rules) ==> !paths::climbs(rules, p) && paths::is_absolute(
            rules,
            p,
        ),
        paths::under(rules, p, p),
{
    paths::roots_nest(rules, p, p, p);
}

/// A grant only adds: whatever a plugin could reach before it can reach after another root was
/// granted to it.
pub proof fn grants_only_widen(
    m: PluginManifest,
    p: Seq<char>,
    grants: Seq<Seq<char>>,
    dir: Seq<char>,
    home: Option<Seq<char>>,
    rules: PathRules,
)
    requires
        m.reaches(p, grants, home, rules),
    ensures
        m.reaches(p, grants.push(dir), home, rules),
{
    let more = grants.push(dir);
    let before = m.root_list(grants, home, rules);
    let after = m.root_list(more, home, rules);
    assert(more.drop_last() =~= grants);
    let i = choose|i: int| 0 <= i < before.len() && paths::under(rules, p, #[trigger] before[i]);
    assert(all_expanded(more, home, rules).len() >= all_expanded(grants, home, rules).len());
    assert(after[i] == before[i]) by {
        let g = all_expanded(grants, home, rules);
        let h = all_expanded(more, home, rules);
        assert(h == match expanded(dir, home, rules) {
            Some(e) => g.push(e),
            None => g,
        });
    }
}

proof fn lemma_all_expanded(
    list: Seq<Seq<char>>,
    home: Option<Seq<char>>,
    rules: PathRules,
    i: int,
)
    requires
        0 <= i < list.len(),
        expanded(list[i], home, rules) is Some,
    ensures
        all_expanded(list, home, rules).contains(expanded(list[i], home, rules)->0),
    decreases list.len(),
{
    let rest = all_expanded(list.drop_last(), home, rules);
    let all = all_expanded(list, home, rules);
    if i < list.len() - 1 {
        lemma_all_expanded(list.drop_last(), home, rules, i);
        let e = expanded(list[i], home, rules)->0;
        assert(list.drop_last()[i] == list[i]);
        let k = choose|k: int| 0 <= k < rest.len() && rest[k] == e;
        assert(all[k] == e);
    } else {
        assert(all.last() == expanded(list[i], home, rules)->0);
        assert(all[all.len() - 1] == all.last());
    }
}

/// Whatever a plugin declared it reads, whatever it declared it writes and whatever it was granted
/// is one of its roots, with its home filled in; and nothing else is.
pub proof fn every_declared_path_is_a_root(
    m: &PluginManifest,
    grants: &Vec<String>,
    home: Option<&str>,
    rules: PathRules,
    out: Vec<String>,
    p: &str,
    filled: Option<String>,
)
    requires
        call_ensures(PluginManifest::roots_with, (m, grants, home, rules), out),
        call_ensures(expand_home, (p, home, rules), filled),
        filled is Some,
    ensures
        text::contents(m.reads@).contains(p@) ==> text::contents(out@).contains(filled->0@),
        text::contents(m.writes@).contains(p@) ==> text::contents(out@).contains(filled->0@),
        text::contents(grants@).contains(p@) ==> text::contents(out@).contains(filled->0@),
        out@.len() <= m.reads@.len() + m.writes@.len() + grants@.len(),
{
    let h = text::opt_view(home);
    let r = text::contents(m.reads@);
    let w = text::contents(m.writes@);
    let g = text::contents(grants@);
    let a = all_expanded(r, h, rules);
    let b = all_expanded(w, h, rules);
    let c = all_expanded(g, h, rules);
    let o = text::contents(out@);
    let e = filled->0@;
    lemma_expanded_len(r, h, rules);
    lemma_expanded_len(w, h, rules);
    lemma_expanded_len(g, h, rules);
    assert(o.len() == out@.len());
    assert(r.len() == m.reads@.len() && w.len() == m.writes@.len() && g.len() == grants@.len());
    if r.contains(p@) {
        let i = choose|i: int| 0 <= i < r.len() && r[i] == p@;
        lemma_all_expanded(r, h, rules, i);
        let k = choose|k: int| 0 <= k < a.len() && a[k] == e;
        assert(o[k] == e);
    }
    if w.contains(p@) {
        let i = choose|i: int| 0 <= i < w.len() && w[i] == p@;
        lemma_all_expanded(w, h, rules, i);
        let k = choose|k: int| 0 <= k < b.len() && b[k] == e;
        assert(o[a.len() + k] == e);
    }
    if g.contains(p@) {
        let i = choose|i: int| 0 <= i < g.len() && g[i] == p@;
        lemma_all_expanded(g, h, rules, i);
        let k = choose|k: int| 0 <= k < c.len() && c[k] == e;
        assert(o[a.len() + b.len() + k] == e);
    }
}

proof fn lemma_expanded_len(list: Seq<Seq<char>>, home: Option<Seq<char>>, rules: PathRules)
    ensures
        all_expanded(list, home, rules).len() <= list.len(),
    decreases list.len(),
{
    if list.len() > 0 {
        lemma_expanded_len(list.drop_last(), home, rules);
    }
}

/// Every root is a path the plugin declared or was granted, with its home filled in.
pub proof fn every_root_was_declared(
    m: &PluginManifest,
    grants: &Vec<String>,
    home: Option<&str>,
    rules: PathRules,
    out: Vec<String>,
    k: int,
)
    requires
        call_ensures(PluginManifest::roots_with, (m, grants, home, rules), out),
        0 <= k < out@.len(),
    ensures
        exists|p: Seq<char>|
            (text::contents(m.reads@).contains(p) || text::contents(m.writes@).contains(p)
                || text::contents(grants@).contains(p)) && #[trigger] expanded(
                p,
                text::opt_view(home),
                rules,
            ) == Some(out@[k]@),
{
    let h = text::opt_view(home);
    let r = text::contents(m.reads@);
    let w = text::contents(m.writes@);
    let g = text::contents(grants@);
    let a = all_expanded(r, h, rules);
    let b = all_expanded(w, h, rules);
    let o = text::contents(out@);
    assert(o[k] == out@[k]@);
    assert(o.len() == out@.len());
    if k < a.len() {
        assert(o[k] == a[k]);
        lemma_from_where(r, h, rules, k);
    } else if k < a.len() + b.len() {
        assert(o[k] == b[k - a.len()]);
        lemma_from_where(w, h, rules, k - a.len());
    } else {
        assert(o[k] == all_expanded(g, h, rules)[k - a.len() - b.len()]);
        lemma_from_where(g, h, rules, k - a.len() - b.len());
    }
}

proof fn lemma_from_where(list: Seq<Seq<char>>, home: Option<Seq<char>>, rules: PathRules, k: int)
    requires
        0 <= k < all_expanded(list, home, rules).len(),
    ensures
        exists|p: Seq<char>|
            list.contains(p) && #[trigger] expanded(p, home, rules) == Some(
                all_expanded(list, home, rules)[k],
            ),
    decreases list.len(),
{
    let d = list.drop_last();
    let rest = all_expanded(d, home, rules);
    if k < rest.len() {
        lemma_from_where(d, home, rules, k);
        let p = choose|p: Seq<char>|
            d.contains(p) && #[trigger] expanded(p, home, rules) == Some(rest[k]);
        let i = choose|i: int| 0 <= i < d.len() && d[i] == p;
        assert(list[i] == p);
        assert(list.contains(p));
    } else {
        assert(list[list.len() - 1] == list.last());
        assert(list.contains(list.last()));
    }
}

/// A plugin may reach an absolute path that does not climb and that lies in one it declared it
/// reads or writes, or was granted; and no other.
pub proof fn a_plugin_reaches_what_it_declared(
    m: &PluginManifest,
    candidate: &str,
    grants: &Vec<String>,
    home: Option<&str>,
    rules: PathRules,
    ok: bool,
    p: &str,
    filled: Option<String>,
    root: &str,
    inside: bool,
)
    requires
        call_ensures(PluginManifest::confines_with, (m, candidate, grants, home, rules), ok),
        call_ensures(expand_home, (p, home, rules), filled),
        filled is Some && root@ == filled->0@,
        call_ensures(paths::is_under, (rules, candidate, root), inside),
    ensures
        paths::is_absolute(rules, candidate@) && !paths::climbs(rules, candidate@) && inside && (
        text::contents(m.reads@).contains(p@) || text::contents(m.writes@).contains(p@)
            || text::contents(grants@).contains(p@)) ==> ok,
        ok ==> paths::is_absolute(rules, candidate@) && !paths::climbs(rules, candidate@),
        ok ==> exists|q: Seq<char>|
            (text::contents(m.reads@).contains(q) || text::contents(m.writes@).contains(q)
                || text::contents(grants@).contains(q)) && (#[trigger] expanded(
                q,
                text::opt_view(home),
                rules,
            ) matches Some(root) && paths::under(rules, candidate@, root)),
{
    let h = text::opt_view(home);
    let r = text::contents(m.reads@);
    let w = text::contents(m.writes@);
    let g = text::contents(grants@);
    let a = all_expanded(r, h, rules);
    let b = all_expanded(w, h, rules);
    let c = all_expanded(g, h, rules);
    let o = m.root_list(g, h, rules);
    let e = filled->0@;
    if r.contains(p@) {
        let i = choose|i: int| 0 <= i < r.len() && r[i] == p@;
        lemma_all_expanded(r, h, rules, i);
        let k = choose|k: int| 0 <= k < a.len() && a[k] == e;
        assert(o[k] == e);
    }
    if w.contains(p@) {
        let i = choose|i: int| 0 <= i < w.len() && w[i] == p@;
        lemma_all_expanded(w, h, rules, i);
        let k = choose|k: int| 0 <= k < b.len() && b[k] == e;
        assert(o[a.len() + k] == e);
    }
    if g.contains(p@) {
        let i = choose|i: int| 0 <= i < g.len() && g[i] == p@;
        lemma_all_expanded(g, h, rules, i);
        let k = choose|k: int| 0 <= k < c.len() && c[k] == e;
        assert(o[a.len() + b.len() + k] == e);
    }
    if ok {
        let k = choose|k: int| 0 <= k < o.len() && paths::under(rules, candidate@, #[trigger] o[k]);
        if k < a.len() {
            assert(o[k] == a[k]);
            lemma_from_where(r, h, rules, k);
        } else if k < a.len() + b.len() {
            assert(o[k] == b[k - a.len()]);
            lemma_from_where(w, h, rules, k - a.len());
        } else {
            assert(o[k] == c[k - a.len() - b.len()]);
            lemma_from_where(g, h, rules, k - a.len() - b.len());
        }
    }
}

/// Only a path under `~/` needs a home, and every other one stands as it is written.
pub proof fn only_a_tilde_needs_a_home(
    p: &str,
    home: Option<&str>,
    rules: PathRules,
    r: Option<String>,
)
    requires
        call_ensures(expand_home, (p, home, rules), r),
    ensures
        !(p@.len() >= 2 && p@[0] == '~' && p@[1] == '/') ==> r is Some && r->0@ == p@,
        p@.len() >= 2 && p@[0] == '~' && p@[1] == '/' ==> (r is Some <==> home is Some),
        p@.len() >= 2 && p@[0] == '~' && p@[1] == '/' && home is Some ==> r->0@
            == paths::joined_path(rules, home->0@, p@.skip(2)),
{
    reveal_strlit("~/");
    assert("~/"@ =~= seq!['~', '/']);
    assert(text::begins(p@, "~/"@) <==> p@.len() >= 2 && p@[0] == '~' && p@[1] == '/') by {
        if p@.len() >= 2 {
            assert(p@.take(2)[0] == p@[0] && p@.take(2)[1] == p@[1]);
            if p@[0] == '~' && p@[1] == '/' {
                assert(p@.take(2) =~= "~/"@);
            }
        }
    }
}

/// An empty home directory is none.
pub proof fn an_empty_home_is_none(var: Option<&str>, h: Option<&str>)
    requires
        call_ensures(home_dir, (var,), h),
    ensures
        var is None || var->0@.len() == 0 ==> h is None,
        var is Some && var->0@.len() > 0 ==> h is Some && h->0@ == var->0@,
{
}

/// No parameter is empty, holds a control character, or passes for a flag unless it is meant to
/// be one; digits are digits, and a path is absolute.
pub proof fn a_parameter_keeps_its_shape(kind: ParamKind, value: &str, rules: PathRules, ok: bool)
    requires
        call_ensures(param_ok, (kind, value, rules), ok),
    ensures
        ok ==> value@.len() > 0,
        ok ==> forall|i: int|
            0 <= i < value@.len() ==> (#[trigger] value@[i]) > '\u{1f}' && !('\u{7f}' <= value@[i]
                <= '\u{9f}'),
        ok && kind != ParamKind::Args ==> value@[0] != '-',
        ok && kind == ParamKind::Digits ==> forall|i: int|
            0 <= i < value@.len() ==> '0' <= (#[trigger] value@[i]) <= '9',
        ok && kind == ParamKind::Id ==> forall|i: int|
            0 <= i < value@.len() ==> ('0' <= (#[trigger] value@[i]) <= '9' || 'a' <= value@[i]
                <= 'z' || 'A' <= value@[i] <= 'Z' || value@[i] == '.' || value@[i] == '_'
                || value@[i] == '-'),
        ok && kind == ParamKind::Path ==> paths::is_absolute(rules, value@),
        ok ==> byte_len(value@) <= match kind {
            ParamKind::Name => 128usize,
            ParamKind::Id => 128,
            ParamKind::Digits => 32,
            ParamKind::Path => 4096,
            ParamKind::Args => 256,
        },
        value@.len() > 0 && (forall|i: int|
            0 <= i < value@.len() ==> (#[trigger] value@[i]) > '\u{1f}' && !('\u{7f}' <= value@[i]
                <= '\u{9f}')) ==> {
            &&& kind == ParamKind::Args && byte_len(value@) <= 256 ==> ok
            &&& kind == ParamKind::Name && value@[0] != '-' && byte_len(value@) <= 128 ==> ok
            &&& kind == ParamKind::Path && value@[0] != '-' && byte_len(value@) <= 4096
                && paths::is_absolute(rules, value@) ==> ok
            &&& kind == ParamKind::Digits && byte_len(value@) <= 32 && (forall|i: int|
                0 <= i < value@.len() ==> '0' <= (#[trigger] value@[i]) <= '9') ==> ok
        },
{
    if ok {
        assert forall|i: int| 0 <= i < value@.len() implies (#[trigger] value@[i]) > '\u{1f}' && !(
        '\u{7f}' <= value@[i] <= '\u{9f}') by {
            assert(!is_control(value@[i]));
        }
    }
    if kind == ParamKind::Digits && value@.len() > 0 {
        assert(value@[0] == value@[0]);
    }
}

/// Only a manifest of the known schema with an id counts, and the last such one of an id stands
/// for it.
pub proof fn the_last_manifest_of_an_id_stands(
    found: &Vec<PluginManifest>,
    id: &str,
    at: Option<usize>,
    k: int,
)
    requires
        call_ensures(for_provider, (found, id), at),
        0 <= k < found@.len(),
    ensures
        at matches Some(i) ==> i < found@.len() && found@[i as int].id@ == id@
            && found@[i as int].schema == 1 && found@[i as int].id@.len() > 0,
        found@[k].schema == 1 && found@[k].id@ == id@ && id@.len() > 0 ==> at is Some && at->0 >= k,
{
    assert(found.len() == found@.len());
    lemma_provider_at(found@, id@, found@.len() as int, k);
}

proof fn lemma_provider_at(found: Seq<PluginManifest>, id: Seq<char>, n: int, k: int)
    requires
        0 <= n <= found.len(),
    ensures
        ({
            let at = provider_at(found, id, n);
            &&& -1 <= at < n || at == -1
            &&& at >= 0 ==> found[at].id@ == id && found[at].schema == 1 && found[at].id@.len() > 0
            &&& 0 <= k < n && found[k].schema == 1 && found[k].id@ == id && id.len() > 0 ==> at >= k
        }),
    decreases n,
{
    if n > 0 {
        lemma_provider_at(found, id, n - 1, k);
    }
}

/// A grant that was written is one of the plugin's roots when the file is read again, and what it
/// had stays.
pub proof fn a_grant_is_a_root(
    file: Option<&str>,
    id: &str,
    dir: &str,
    g: Granted,
    body: &str,
    again: Grants,
    roots: Vec<String>,
)
    requires
        call_ensures(grant_root, (file, id, dir), g),
        body@ == g.body@,
        call_ensures(Grants::parse, (body,), again),
        call_ensures(Grants::granted_to, (&again, id), roots),
        grants_written(with_grant(grants_in(text::opt_view(file)), id@, dir@)) is Some,
    ensures
        text::contents(g.all@).contains(dir@),
        text::contents(roots@) == text::contents(g.all@),
        forall|p: Seq<char>|
            granted_in(grants_in(text::opt_view(file)), id@).contains(p) ==> #[trigger]
            text::contents(roots@).contains(p),
{
    let before = grants_in(text::opt_view(file));
    a_grant_stays_with_its_plugin(before, id@, dir@, id@);
    let had = granted_in(before, id@);
    let now = granted_in(with_grant(before, id@, dir@), id@);
    if !had.contains(dir@) {
        assert(now[had.len() as int] == dir@);
    }
    assert forall|p: Seq<char>| had.contains(p) implies #[trigger] now.contains(p) by {
        let i = choose|i: int| 0 <= i < had.len() && had[i] == p;
        assert(now[i] == p);
    }
    assert(granted_in(grants_in(Some(g.body@)), id@) == now);
}

/// The roots of a plugin and what it may reach go by what the file grants to that plugin.
pub proof fn the_file_grants_to_its_plugin(
    m: &PluginManifest,
    file: Option<&str>,
    home: Option<&str>,
    rules: PathRules,
    g: &Grants,
    read: Grants,
    id: &str,
    granted: Vec<String>,
    out: Vec<String>,
    with: Vec<String>,
    candidate: &str,
    ok: bool,
    ok_with: bool,
    none: Grants,
)
    requires
        call_ensures(Grants::of_file, (file,), read),
        *g == read,
        id@ == m.id@,
        call_ensures(Grants::granted_to, (g, id), granted),
        call_ensures(PluginManifest::roots, (m, file, home, rules), out),
        call_ensures(PluginManifest::roots_with, (m, &granted, home, rules), with),
        call_ensures(PluginManifest::confines, (m, candidate, file, home, rules), ok),
        call_ensures(
            PluginManifest::confines_with,
            (m, candidate, &granted, home, rules),
            ok_with,
        ),
        call_ensures(Grants::of_file, (None::<&str>,), none),
    ensures
        text::contents(out@) == text::contents(with@),
        ok == ok_with,
        none@.len() == 0,
        file is None ==> granted@.len() == 0,
{
    assert(text::contents(granted@).len() == granted@.len());
    assert(text::opt_view(None::<&str>) is None);
}

/// A directory that is granted is granted to that plugin, once and last, and to no other.
pub proof fn a_grant_is_for_one_plugin(
    g: &mut Grants,
    id: &str,
    dir: &str,
    before: Vec<String>,
    after: Vec<String>,
    other: &str,
    theirs: Vec<String>,
    theirs_after: Vec<String>,
    was: &Grants,
    is: &Grants,
)
    requires
        old(g).wf(),
        call_ensures(Grants::add_root, (g, id, dir), ()),
        *was == *old(g),
        *is == *final(g),
        call_ensures(Grants::granted_to, (was, id), before),
        call_ensures(Grants::granted_to, (is, id), after),
        other@ != id@,
        call_ensures(Grants::granted_to, (was, other), theirs),
        call_ensures(Grants::granted_to, (is, other), theirs_after),
    ensures
        text::contents(before@).contains(dir@) ==> text::contents(after@)
            == text::contents(before@),
        !text::contents(before@).contains(dir@) ==> text::contents(after@) == text::contents(
            before@,
        ).push(dir@),
        text::contents(theirs_after@) == text::contents(theirs@),
        final(g).wf(),
{
    a_grant_stays_with_its_plugin(old(g)@, id@, dir@, id@);
    a_grant_stays_with_its_plugin(old(g)@, id@, dir@, other@);
}

/// What the file grants to a plugin is a root, with its home filled in.
pub proof fn a_granted_directory_is_a_root(
    file: Option<&str>,
    id: &str,
    home: Option<&str>,
    rules: PathRules,
    g: &Grants,
    read: Grants,
    granted: Vec<String>,
    out: Vec<String>,
    p: &str,
    filled: Option<String>,
)
    requires
        call_ensures(Grants::of_file, (file,), read),
        *g == read,
        call_ensures(Grants::granted_to, (g, id), granted),
        call_ensures(granted_roots, (file, id, home, rules), out),
        call_ensures(expand_home, (p, home, rules), filled),
        text::contents(granted@).contains(p@),
    ensures
        filled matches Some(e) ==> text::contents(out@).contains(e@),
        out@.len() <= granted@.len(),
{
    let h = text::opt_view(home);
    let l = text::contents(granted@);
    let o = text::contents(out@);
    lemma_expanded_len(l, h, rules);
    assert(o.len() == out@.len());
    assert(l.len() == granted@.len());
    let i = choose|i: int| 0 <= i < l.len() && l[i] == p@;
    if filled is Some {
        lemma_all_expanded(l, h, rules, i);
    }
}

/// The installed plugins are the last usable manifests of their ids, each once and in order.
pub proof fn each_id_is_installed_once(
    found: &Vec<PluginManifest>,
    out: Vec<usize>,
    k: int,
    m: &PluginManifest,
    u: bool,
    a: int,
    b: int,
)
    requires
        call_ensures(installed, (found,), out),
        0 <= k < found@.len(),
        *m == found@[k],
        call_ensures(PluginManifest::usable, (m,), u),
        0 <= a < b < out@.len(),
    ensures
        u <==> m.schema == 1 && m.id@.len() > 0,
        out@[a] < out@[b],
        found@[out@[a] as int].id@ != found@[out@[b] as int].id@,
        u && (forall|j: int|
            k < j < found@.len() && (#[trigger] found@[j]).schema == 1 ==> found@[j].id@ != m.id@)
            ==> out@.contains(k as usize),
        !u ==> !out@.contains(k as usize),
{
    let n = found@.len() as int;
    assert(found.len() == found@.len());
    assert(stands(found@, out@[a] as int));
    assert(stands(found@, out@[b] as int));
    lemma_provider_at(found@, m.id@, n, k);
    if u && (forall|j: int|
        k < j < found@.len() && (#[trigger] found@[j]).schema == 1 ==> found@[j].id@ != m.id@) {
        let at = provider_at(found@, m.id@, n);
        assert(at >= k);
        assert(found@[at].schema == 1);
        assert(at == k);
        assert(stands(found@, k));
    }
    if out@.contains(k as usize) {
        let i = choose|i: int| 0 <= i < out@.len() && out@[i] == k as usize;
        assert(stands(found@, out@[i] as int));
        assert(k as usize as int == k);
    }
}

} // verus!
