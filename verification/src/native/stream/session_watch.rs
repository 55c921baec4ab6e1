//! Following a mid-stream flip between gaming and desktop sessions.
//!
//! The watcher only decides and signals; looking at the session and building the new backend stay
//! with the caller.

use crate::text;
use crate::text::Sep;
use vstd::prelude::*;

verus! {

/// How long a new session kind has to hold before it is followed.
pub const DEBOUNCE_NS: u64 = 3_000_000_000;

/// A setting that switches something off: empty, `0`, or a word for no.
pub open spec fn says_off(v: Seq<char>) -> bool {
    ||| v.len() == 0
    ||| v == "0"@
    ||| text::like(v, "false"@)
    ||| text::like(v, "no"@)
    ||| text::like(v, "off"@)
}

/// A line of an os-release file that names Bazzite or SteamOS as the system or its family.
pub open spec fn names_htpc(line: Seq<char>) -> bool {
    let l = text::trimmed(line, Sep::Space);
    if text::begins(l, "ID="@) {
        value_names_htpc(l.skip("ID="@.len() as int))
    } else {
        text::begins(l, "ID_LIKE="@) && value_names_htpc(l.skip("ID_LIKE="@.len() as int))
    }
}

pub open spec fn value_names_htpc(value: Seq<char>) -> bool {
    exists|i: int|
        0 <= i < text::words(text::trimmed(value, Sep::Is('"'))).len() && is_htpc(
            #[trigger] text::words(text::trimmed(value, Sep::Is('"')))[i],
        )
}

pub open spec fn is_htpc(word: Seq<char>) -> bool {
    text::like(word, "bazzite"@) || text::like(word, "steamos"@)
}

/// Some line of an os-release file names Bazzite or SteamOS.
pub open spec fn htpc_platform(os_release: Option<Seq<char>>) -> bool {
    match os_release {
        None => false,
        Some(os) => some_line_names_htpc(os),
    }
}

pub open spec fn some_line_names_htpc(os: Seq<char>) -> bool {
    exists|i: int|
        0 <= i < text::lines_of(os).len() && names_htpc(#[trigger] text::lines_of(os)[i])
}

fn value_is_htpc(value: &str) -> (r: bool)
    ensures
        r == value_names_htpc(value@),
{
    let inner: &str = text::trim(value, Sep::Is('"'));
    let words: Vec<&str> = text::split_words(inner);
    let ghost w = text::words(text::trimmed(value@, Sep::Is('"')));
    let mut i: usize = 0;
    while i < words.len()
        invariant
            i <= words@.len(),
            text::views(words@) == w,
            w == text::words(text::trimmed(value@, Sep::Is('"'))),
            forall|k: int| 0 <= k < i ==> !is_htpc(#[trigger] w[k]),
        decreases words@.len() - i,
    {
        let word: &str = words[i];
        assert(w[i as int] == word@);
        if text::same_ignoring_case(word, "bazzite") || text::same_ignoring_case(word, "steamos") {
            assert(i < w.len());
            return true;
        }
        i = i + 1;
    }
    assert(w.len() == words@.len());
    false
}

fn line_is_htpc(line: &str) -> (r: bool)
    ensures
        r == names_htpc(line@),
{
    let l: &str = text::trim(line, Sep::Space);
    match text::strip_prefix(l, "ID=") {
        Some(value) => value_is_htpc(value),
        None => match text::strip_prefix(l, "ID_LIKE=") {
            Some(value) => value_is_htpc(value),
            None => false,
        },
    }
}

fn file_is_htpc(os: &str) -> (r: bool)
    ensures
        r == htpc_platform(Some(os@)),
{
    let lines: Vec<&str> = text::lines(os);
    let ghost all = text::lines_of(os@);
    let mut i: usize = 0;
    while i < lines.len()
        invariant
            i <= lines@.len(),
            text::views(lines@) == all,
            all == text::lines_of(os@),
            forall|k: int| 0 <= k < i ==> !names_htpc(#[trigger] all[k]),
        decreases lines@.len() - i,
    {
        let line: &str = lines[i];
        assert(all[i as int] == line@);
        if line_is_htpc(line) {
            assert(i < all.len());
            assert(some_line_names_htpc(os@));
            return true;
        }
        i = i + 1;
    }
    assert(all.len() == lines@.len());
    false
}

/// Whether an os-release file is Bazzite's or SteamOS's. No file, no.
pub fn is_steam_htpc_platform(os_release: Option<&str>) -> (r: bool)
    ensures
        r == htpc_platform(
            match os_release {
                Some(os) => Some(os@),
                None => None,
            },
        ),
{
    match os_release {
        None => false,
        Some(os) => file_is_htpc(os),
    }
}

/// Whether sessions are watched: the setting wins; without one, only where sessions flip.
pub fn session_watch_enabled(setting: Option<&str>, os_release: Option<&str>) -> (on: bool)
    ensures
        on == match setting {
            Some(v) => !says_off(text::trimmed(v@, Sep::Space)),
            None => htpc_platform(
                match os_release {
                    Some(os) => Some(os@),
                    None => None,
                },
            ),
        },
{
    match setting {
        Some(v) => {
            let v: &str = text::trim(v, Sep::Space);
            !(v.is_empty() || text::same(v, "0") || text::same_ignoring_case(v, "false")
                || text::same_ignoring_case(v, "no") || text::same_ignoring_case(v, "off"))
        },
        None => is_steam_htpc_platform(os_release),
    }
}

/// What the watcher remembers. Session kinds are told apart by number.
#[derive(Clone, Copy, Debug, PartialEq, Eq)]
pub struct SessionWatch {
    pub current: u32,
    /// A kind that differs from the current one, and since when.
    pub pending: Option<(u32, u64)>,
}

/// What the watcher asks for.
#[derive(Clone, Copy, Debug, PartialEq, Eq, Structural)]
pub enum WatchStep {
    Nothing,
    /// Release the autologin mask, then signal a rebuild if a backend exists for the new kind.
    Follow(u32),
}

impl SessionWatch {
    /// The change to `seen` has held long enough.
    pub open spec fn follows(self, seen: u32, now_ns: u64) -> bool {
        &&& seen != self.current
        &&& self.pending matches Some(p)
        &&& p.0 == seen
        &&& now_ns - p.1 >= DEBOUNCE_NS
    }

    /// The watch after a look: going back to the current kind, or on to a third one, starts over.
    pub open spec fn looked(self, seen: u32, now_ns: u64) -> SessionWatch {
        SessionWatch {
            current: self.current,
            pending: if seen == self.current || self.follows(seen, now_ns) {
                None
            } else {
                match self.pending {
                    Some(p) if p.0 == seen => Some(p),
                    _ => Some((seen, now_ns)),
                }
            },
        }
    }

    /// One look at the session. A change is followed once it has held for [`DEBOUNCE_NS`].
    pub fn observe(&mut self, seen: u32, now_ns: u64) -> (step: WatchStep)
        ensures
            *final(self) == old(self).looked(seen, now_ns),
            step == if old(self).follows(seen, now_ns) {
                WatchStep::Follow(seen)
            } else {
                WatchStep::Nothing
            },
    {
        if seen == self.current {
            self.pending = None;
            return WatchStep::Nothing;
        }
        match self.pending {
            Some(p) => {
                if p.0 == seen {
                    if now_ns.saturating_sub(p.1) >= DEBOUNCE_NS {
                        self.pending = None;
                        WatchStep::Follow(seen)
                    } else {
                        WatchStep::Nothing
                    }
                } else {
                    self.pending = Some((seen, now_ns));
                    WatchStep::Nothing
                }
            },
            None => {
                self.pending = Some((seen, now_ns));
                WatchStep::Nothing
            },
        }
    }

    /// Books a followed switch: the kind is current only when a backend was found for it;
    /// otherwise the session stays put.
    pub fn followed(&mut self, kind: u32, backend_found: bool)
        ensures
            *final(self) == (SessionWatch {
                current: if backend_found {
                    kind
                } else {
                    old(self).current
                },
                ..*old(self)
            }),
    {
        if backend_found {
            self.current = kind;
        }
    }
}

/// The watch after a run of looks, each a kind and a time.
pub open spec fn after_looks(w: SessionWatch, looks: Seq<(u32, u64)>) -> SessionWatch
    decreases looks.len(),
{
    if looks.len() == 0 {
        w
    } else {
        after_looks(w, looks.drop_last()).looked(looks.last().0, looks.last().1)
    }
}

/// From look `i` on, every look shows `kind`.
pub open spec fn shows_since(looks: Seq<(u32, u64)>, i: int, kind: u32) -> bool {
    0 <= i < looks.len() && forall|k: int| i <= k < looks.len() ==> (#[trigger] looks[k]).0 == kind
}

proof fn lemma_pending_is_seen(w: SessionWatch, looks: Seq<(u32, u64)>)
    requires
        w.pending is None,
    ensures
        after_looks(w, looks).pending matches Some(p) ==> exists|i: int|
            shows_since(looks, i, p.0) && looks[i].1 == p.1,
    decreases looks.len(),
{
    if looks.len() > 0 {
        let before = looks.drop_last();
        lemma_pending_is_seen(w, before);
        let b = after_looks(w, before);
        let n = looks.len() - 1;
        let a = after_looks(w, looks);
        if let Some(p) = a.pending {
            if b.pending == Some(p) {
                let i = choose|i: int| shows_since(before, i, p.0) && before[i].1 == p.1;
                assert forall|k: int| i <= k < looks.len() implies (#[trigger] looks[k]).0
                    == p.0 by {
                    if k < n {
                        assert(before[k].0 == p.0);
                    }
                }
                assert(shows_since(looks, i, p.0) && looks[i].1 == p.1);
            } else {
                assert(shows_since(looks, n, p.0) && looks[n].1 == p.1);
            }
        }
    }
}

/// A change is followed only after it was seen, look after look, for the whole debounce: a session
/// that flips back in between is not.
pub proof fn only_a_lasting_change_is_followed(w: SessionWatch, looks: Seq<(u32, u64)>)
    requires
        w.pending is None,
        looks.len() > 0,
        after_looks(w, looks.drop_last()).follows(looks.last().0, looks.last().1),
    ensures
        exists|i: int|
            shows_since(looks, i, looks.last().0) && looks.last().1 - looks[i].1 >= DEBOUNCE_NS,
{
    let before = looks.drop_last();
    lemma_pending_is_seen(w, before);
    let p = after_looks(w, before).pending->0;
    let i = choose|i: int| shows_since(before, i, p.0) && before[i].1 == p.1;
    assert forall|k: int| i <= k < looks.len() implies (#[trigger] looks[k]).0 == p.0 by {
        if k < looks.len() - 1 {
            assert(before[k].0 == p.0);
        }
    }
    assert(shows_since(looks, i, looks.last().0) && looks.last().1 - looks[i].1 >= DEBOUNCE_NS);
}

/// A change is followed once it was seen for three seconds without another look in between that
/// showed something else; a look at the current kind forgets it.
pub proof fn a_change_is_followed_after_three_seconds(
    w: &mut SessionWatch,
    seen: u32,
    now_ns: u64,
    step: WatchStep,
)
    requires
        call_ensures(SessionWatch::observe, (w, seen, now_ns), step),
    ensures
        step matches WatchStep::Follow(k) ==> k == seen && seen != old(w).current && (
        old(w).pending matches Some(p) && p.0 == seen && now_ns - p.1 >= 3_000_000_000),
        seen != old(w).current && (old(w).pending matches Some(p) && p.0 == seen && now_ns - p.1
            >= 3_000_000_000) ==> step == WatchStep::Follow(seen),
        seen == old(w).current ==> final(w).pending is None && step == WatchStep::Nothing,
        seen != old(w).current && step == WatchStep::Nothing ==> (final(w).pending matches Some(p)
            && p.0 == seen && (p.1 == now_ns || old(w).pending == Some(p))),
        seen != old(w).current && (old(w).pending matches Some(p) ==> p.0 != seen) ==> final(
            w).pending == Some((seen, now_ns)),
        final(w).current == old(w).current,
{
}

/// A kind is current only once a backend was found for it.
pub proof fn a_kind_needs_a_backend(w: &mut SessionWatch, kind: u32, found: bool)
    requires
        call_ensures(SessionWatch::followed, (w, kind, found), ()),
    ensures
        found ==> final(w).current == kind,
        !found ==> final(w).current == old(w).current,
        final(w).pending == old(w).pending,
{
}

/// The setting decides where there is one: off when empty, `0` or a word for no, in any letters
/// and with any space around, and on otherwise. Without one, only a system whose sessions flip is
/// watched, and no file is no such system.
pub proof fn the_setting_decides_the_watch(
    setting: Option<&str>,
    os: Option<&str>,
    on: bool,
    htpc: bool,
)
    requires
        call_ensures(session_watch_enabled, (setting, os), on),
        call_ensures(is_steam_htpc_platform, (os,), htpc),
    ensures
        setting is None ==> on == htpc,
        os is None ==> !htpc,
        setting matches Some(v) ==> {
            let t = text::trimmed(v@, Sep::Space);
            &&& t.len() == 0 || t == seq!['0'] || text::lower(t) == seq!['n', 'o'] || text::lower(t)
                == seq!['o', 'f', 'f'] || text::lower(t) == seq!['f', 'a', 'l', 's', 'e'] ==> !on
            &&& !on ==> t.len() == 0 || t == seq!['0'] || text::lower(t) == seq!['n', 'o']
                || text::lower(t) == seq!['o', 'f', 'f'] || text::lower(t) == seq![
                'f',
                'a',
                'l',
                's',
                'e',
            ]
        },
{
    reveal_strlit("0");
    reveal_strlit("no");
    reveal_strlit("off");
    reveal_strlit("false");
    assert("0"@ =~= seq!['0']);
    assert(text::lower("no"@) =~= seq!['n', 'o']);
    assert(text::lower("off"@) =~= seq!['o', 'f', 'f']);
    assert(text::lower("false"@) =~= seq!['f', 'a', 'l', 's', 'e']);
}

/// A system is watched for its id or its family: a line `ID=` or `ID_LIKE=` that names Bazzite or
/// SteamOS among its words makes it one.
pub proof fn a_system_is_known_by_its_id(os: &str, htpc: bool, i: int, j: int, like: bool)
    requires
        call_ensures(is_steam_htpc_platform, (Some(os),), htpc),
        0 <= i < text::lines_of(os@).len(),
    ensures
        ({
            let l = text::trimmed(text::lines_of(os@)[i], Sep::Space);
            let id = if like {
                "ID_LIKE="@
            } else {
                "ID="@
            };
            let words = text::words(text::trimmed(l.skip(id.len() as int), Sep::Is('"')));
            text::begins(l, id) && 0 <= j < words.len() && (text::like(words[j], "bazzite"@)
                || text::like(words[j], "steamos"@)) ==> htpc
        }),
{
    let l = text::trimmed(text::lines_of(os@)[i], Sep::Space);
    reveal_strlit("ID=");
    reveal_strlit("ID_LIKE=");
    if like && text::begins(l, "ID_LIKE="@) {
        assert(l.take(8)[2] == l[2]);
        assert(l[2] == '_');
        if text::begins(l, "ID="@) {
            assert(l.take(3)[2] == l[2]);
            assert(false);
        }
    }
    let id = if like {
        "ID_LIKE="@
    } else {
        "ID="@
    };
    let words = text::words(text::trimmed(l.skip(id.len() as int), Sep::Is('"')));
    if text::begins(l, id) && 0 <= j < words.len() && (text::like(words[j], "bazzite"@)
        || text::like(words[j], "steamos"@)) {
        assert(is_htpc(words[j]));
        assert(value_names_htpc(l.skip(id.len() as int)));
        assert(names_htpc(text::lines_of(os@)[i]));
        assert(some_line_names_htpc(os@));
    }
}

} // verus!
