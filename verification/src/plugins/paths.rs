//! Paths taken apart and put together, by the rules of the system they belong to.
//!
//! POSIX knows one separator and one root. Windows knows two separators and a prefix: a drive, a
//! share, a device, or a verbatim path, in which only the backslash separates and a `.` stands.

use crate::text;
use crate::text::Sep;
use vstd::prelude::*;
use vstd::string::StrSliceExecFns;
use vstd::string::StringExecFns;

verus! {

/// Whose paths they are.
#[derive(Clone, Copy, Debug, PartialEq, Eq, Structural)]
pub enum PathRules {
    Posix,
    Windows,
}

/// What may stand before the root of a Windows path. A drive's letter is kept in lower case.
pub enum Prefix {
    /// `\\?\name`
    Verbatim(String),
    /// `\\?\UNC\server\share`
    VerbatimShare(String, String),
    /// `\\?\C:`
    VerbatimDrive(char),
    /// `\\.\name`
    Device(String),
    /// `\\server\share`
    Share(String, String),
    /// `C:`
    Drive(char),
}

/// What may stand before the root.
#[verifier::ext_equal]
pub enum PrefixView {
    Verbatim(Seq<char>),
    VerbatimShare(Seq<char>, Seq<char>),
    VerbatimDrive(char),
    Device(Seq<char>),
    Share(Seq<char>, Seq<char>),
    Drive(char),
}

impl View for Prefix {
    type V = PrefixView;

    open spec fn view(&self) -> PrefixView {
        match *self {
            Prefix::Verbatim(n) => PrefixView::Verbatim(n@),
            Prefix::VerbatimShare(a, b) => PrefixView::VerbatimShare(a@, b@),
            Prefix::VerbatimDrive(c) => PrefixView::VerbatimDrive(c),
            Prefix::Device(n) => PrefixView::Device(n@),
            Prefix::Share(a, b) => PrefixView::Share(a@, b@),
            Prefix::Drive(c) => PrefixView::Drive(c),
        }
    }
}

/// A part of a path.
pub enum Part {
    Prefix(Prefix),
    Root,
    /// A `.` that stands.
    Here,
    Name(String),
}

/// A part of a path.
#[verifier::ext_equal]
pub enum PartView {
    Prefix(PrefixView),
    Root,
    Here,
    Name(Seq<char>),
}

impl View for Part {
    type V = PartView;

    open spec fn view(&self) -> PartView {
        match *self {
            Part::Prefix(x) => PartView::Prefix(x@),
            Part::Root => PartView::Root,
            Part::Here => PartView::Here,
            Part::Name(n) => PartView::Name(n@),
        }
    }
}

/// The parts of a list.
pub open spec fn part_views(v: Seq<Part>) -> Seq<PartView> {
    v.map_values(|x: Part| x@)
}

/// What separates the parts of a path.
pub open spec fn separator(rules: PathRules) -> Sep {
    match rules {
        PathRules::Posix => Sep::Is('/'),
        PathRules::Windows => Sep::Slash,
    }
}

/// What is written between two parts.
pub open spec fn separator_text(rules: PathRules) -> Seq<char> {
    match rules {
        PathRules::Posix => "/"@,
        PathRules::Windows => "\\"@,
    }
}

/// `.`
pub open spec fn here() -> Seq<char> {
    seq!['.']
}

/// `..`
pub open spec fn up() -> Seq<char> {
    seq!['.', '.']
}

/// A path with every slash a backslash.
pub open spec fn backslashed(p: Seq<char>) -> Seq<char> {
    p.map_values(
        |c: char|
            if c == '/' {
                '\\'
            } else {
                c
            },
    )
}

/// The first part of a text, and the second one; none is empty.
pub open spec fn first_two(s: Seq<char>, sep: Sep) -> (Seq<char>, Seq<char>) {
    let w = text::parts(s, sep);
    (
        w[0],
        if w.len() > 1 {
            w[1]
        } else {
            Seq::empty()
        },
    )
}

/// The drive a text begins with.
pub open spec fn drive_of(s: Seq<char>) -> Option<char> {
    if s.len() >= 2 && s[1] == ':' && ('a' <= s[0] <= 'z' || 'A' <= s[0] <= 'Z') {
        Some(text::lower_char(s[0]))
    } else {
        None
    }
}

/// The prefix of a Windows path. A verbatim one begins with backslashes alone; elsewhere either
/// slash will do.
pub open spec fn windows_prefix(p: Seq<char>) -> Option<PrefixView> {
    let t = backslashed(p);
    if text::begins(t, "\\\\"@) {
        if text::begins(p, "\\\\?\\"@) {
            if text::begins(t, "\\\\?\\UNC\\"@) {
                let w = first_two(p.skip(8), Sep::Is('\\'));
                Some(PrefixView::VerbatimShare(w.0, w.1))
            } else {
                let rest = p.skip(4);
                match drive_of(rest) {
                    Some(c) if rest.len() == 2 || text::cuts(Sep::Slash, rest[2]) => Some(
                        PrefixView::VerbatimDrive(c),
                    ),
                    _ => Some(PrefixView::Verbatim(first_two(rest, Sep::Is('\\')).0)),
                }
            }
        } else if text::begins(t, "\\\\.\\"@) {
            Some(PrefixView::Device(first_two(p.skip(4), Sep::Slash).0))
        } else {
            let w = first_two(p.skip(2), Sep::Slash);
            if w.0.len() > 0 && w.1.len() > 0 {
                Some(PrefixView::Share(w.0, w.1))
            } else {
                None
            }
        }
    } else {
        match drive_of(p) {
            Some(c) => Some(PrefixView::Drive(c)),
            None => None,
        }
    }
}

/// The prefix of a path.
pub open spec fn prefix_of(rules: PathRules, p: Seq<char>) -> Option<PrefixView> {
    match rules {
        PathRules::Posix => None,
        PathRules::Windows => windows_prefix(p),
    }
}

/// How many characters a prefix takes.
pub open spec fn prefix_len(x: Option<PrefixView>) -> nat {
    match x {
        None => 0,
        Some(PrefixView::Verbatim(n)) => 4 + n.len(),
        Some(PrefixView::VerbatimShare(a, b)) => 8 + a.len() + if b.len() > 0 {
            1 + b.len()
        } else {
            0
        },
        Some(PrefixView::VerbatimDrive(_)) => 6,
        Some(PrefixView::Device(n)) => 4 + n.len(),
        Some(PrefixView::Share(a, b)) => 3 + a.len() + b.len(),
        Some(PrefixView::Drive(_)) => 2,
    }
}

/// A prefix of a verbatim path.
pub open spec fn is_verbatim(x: Option<PrefixView>) -> bool {
    x matches Some(v) && (v is Verbatim || v is VerbatimShare || v is VerbatimDrive)
}

/// A prefix that is a root of its own: every one but a drive.
pub open spec fn is_rooting(x: Option<PrefixView>) -> bool {
    x matches Some(v) && !(v is Drive)
}

/// A separator follows the prefix.
pub open spec fn rooted(rules: PathRules, p: Seq<char>) -> bool {
    let n = prefix_len(prefix_of(rules, p)) as int;
    n < p.len() && text::cuts(separator(rules), p[n])
}

/// An absolute path: it has a root, and on Windows a prefix too.
pub open spec fn is_absolute(rules: PathRules, p: Seq<char>) -> bool {
    match rules {
        PathRules::Posix => rooted(rules, p),
        PathRules::Windows => windows_prefix(p) is Some && (rooted(rules, p) || is_rooting(
            windows_prefix(p),
        )),
    }
}

/// What follows the prefix and the root.
pub open spec fn body(rules: PathRules, p: Seq<char>) -> Seq<char> {
    p.skip(
        prefix_len(prefix_of(rules, p)) + if rooted(rules, p) {
            1
        } else {
            0int
        },
    )
}

/// What follows the prefix and the root, cut into words.
pub open spec fn body_words(rules: PathRules, p: Seq<char>) -> Seq<Seq<char>> {
    text::parts(
        body(rules, p),
        if is_verbatim(prefix_of(rules, p)) {
            Sep::Is('\\')
        } else {
            separator(rules)
        },
    )
}

/// The parts that words are: no empty one, and no `.` but in a verbatim path.
pub open spec fn named(words: Seq<Seq<char>>, verbatim: bool) -> Seq<PartView>
    decreases words.len(),
{
    if words.len() == 0 {
        Seq::empty()
    } else {
        let before = named(words.drop_last(), verbatim);
        let w = words.last();
        if w.len() == 0 {
            before
        } else if w == here() {
            if verbatim {
                before.push(PartView::Here)
            } else {
                before
            }
        } else {
            before.push(PartView::Name(w))
        }
    }
}

/// The prefix and the root of a path, or the `.` that begins one without either.
pub open spec fn beginning(rules: PathRules, p: Seq<char>) -> Seq<PartView> {
    let x = prefix_of(rules, p);
    let first = match x {
        Some(v) => seq![PartView::Prefix(v)],
        None => Seq::empty(),
    };
    if rooted(rules, p) || (is_rooting(x) && !is_verbatim(x)) {
        first.push(PartView::Root)
    } else if x is None && body_words(rules, p)[0] == here() {
        first.push(PartView::Here)
    } else {
        first
    }
}

/// The components of a path.
pub open spec fn components(rules: PathRules, p: Seq<char>) -> Seq<PartView> {
    beginning(rules, p) + named(body_words(rules, p), is_verbatim(prefix_of(rules, p)))
}

/// `root` holds `p`: its components are the first of `p`'s.
pub open spec fn under(rules: PathRules, p: Seq<char>, root: Seq<char>) -> bool {
    components(rules, root).len() <= components(rules, p).len() && components(rules, p).take(
        components(rules, root).len() as int,
    ) == components(rules, root)
}

/// A path that climbs.
pub open spec fn climbs(rules: PathRules, p: Seq<char>) -> bool {
    components(rules, p).contains(PartView::Name(up()))
}

/// Parts with another path's first `n` taken behind them: its root goes back to the prefix, and
/// its `..` takes back a name. A path put behind another has no prefix.
pub open spec fn walked(base: Seq<PartView>, add: Seq<PartView>, n: int) -> Seq<PartView>
    decreases n,
{
    if n <= 0 {
        base
    } else {
        let b = walked(base, add, n - 1);
        match add[n - 1] {
            PartView::Root => b.take(1).push(PartView::Root),
            PartView::Name(w) => if w != up() {
                b.push(add[n - 1])
            } else if b.len() > 0 && b.last() is Name && b.last() != PartView::Name(up()) {
                b.drop_last()
            } else {
                b
            },
            _ => b,
        }
    }
}

/// The text of a part; `raw` is the prefix as written.
pub open spec fn part_text(x: PartView, raw: Seq<char>) -> Seq<char> {
    match x {
        PartView::Prefix(_) => raw,
        PartView::Root => "\\"@,
        PartView::Here => here(),
        PartView::Name(w) => w,
    }
}

/// The first `n` parts as one text: backslashes between them, none around the root's own.
pub open spec fn written(parts: Seq<PartView>, raw: Seq<char>, n: int) -> Seq<char>
    decreases n,
{
    if n <= 0 {
        Seq::empty()
    } else if n == 1 || parts[n - 1] is Root || parts[n - 2] is Root {
        written(parts, raw, n - 1) + part_text(parts[n - 1], raw)
    } else {
        written(parts, raw, n - 1) + "\\"@ + part_text(parts[n - 1], raw)
    }
}

/// A path put behind a directory. One with a prefix, or an absolute one, stands for itself; one
/// that has only a root keeps the directory's prefix; behind a verbatim directory `.` and `..`
/// are resolved. A bare drive takes no separator.
pub open spec fn joined_path(rules: PathRules, dir: Seq<char>, rest: Seq<char>) -> Seq<char> {
    let x = prefix_of(rules, dir);
    if prefix_of(rules, rest) is Some {
        rest
    } else if is_verbatim(x) && rest.len() > 0 {
        let add = components(rules, rest);
        let all = walked(components(rules, dir), add, add.len() as int);
        written(all, dir.take(prefix_len(x) as int), all.len() as int)
    } else if rooted(rules, rest) {
        dir.take(prefix_len(x) as int) + rest
    } else if dir.len() > 0 && !text::cuts(separator(rules), dir.last()) && !(x matches Some(
        PrefixView::Drive(_),
    ) && dir.len() == 2) {
        dir + separator_text(rules) + rest
    } else {
        dir + rest
    }
}

proof fn lemma_first_two(s: Seq<char>, sep: Sep)
    ensures
        text::parts(s, sep).len() > 0,
        first_two(s, sep).0.len() <= s.len(),
        first_two(s, sep).1.len() > 0 ==> first_two(s, sep).0.len() + 1 + first_two(s, sep).1.len()
            <= s.len(),
{
    text::lemma_next_cut(s, sep, 0);
    let end = text::next_cut(s, sep, 0);
    if end < s.len() {
        text::lemma_next_cut(s, sep, end + 1);
        assert(text::parts(s, sep) == seq![s.subrange(0, end)] + text::parts_from(s, sep, end + 1));
        assert(text::parts(s, sep)[1] == text::parts_from(s, sep, end + 1)[0]);
    }
}

/// A prefix lies within its path.
proof fn lemma_prefix_fits(rules: PathRules, p: Seq<char>)
    ensures
        prefix_len(prefix_of(rules, p)) <= p.len(),
{
    reveal_strlit("\\\\");
    reveal_strlit("\\\\?\\");
    reveal_strlit("\\\\?\\UNC\\");
    reveal_strlit("\\\\.\\");
    if p.len() >= 8 {
        lemma_first_two(p.skip(8), Sep::Is('\\'));
    }
    if p.len() >= 4 {
        lemma_first_two(p.skip(4), Sep::Is('\\'));
        lemma_first_two(p.skip(4), Sep::Slash);
    }
    if p.len() >= 2 {
        lemma_first_two(p.skip(2), Sep::Slash);
    }
}

fn separates(rules: PathRules) -> (sep: Sep)
    ensures
        sep == separator(rules),
{
    match rules {
        PathRules::Posix => Sep::Is('/'),
        PathRules::Windows => Sep::Slash,
    }
}

fn from_char<'a>(s: &'a str, n: usize) -> (r: &'a str)
    requires
        n <= s@.len(),
    ensures
        r@ == s@.skip(n as int),
{
    let v: Vec<char> = text::chars_of(s);
    assert(s@.subrange(n as int, s@.len() as int) =~= s@.skip(n as int));
    s.substring_char(n, v.len())
}

fn up_to_char<'a>(s: &'a str, n: usize) -> (r: &'a str)
    requires
        n <= s@.len(),
    ensures
        r@ == s@.take(n as int),
{
    assert(s@.subrange(0, n as int) =~= s@.take(n as int));
    s.substring_char(0, n)
}

fn with_backslashes(p: &str) -> (r: String)
    ensures
        r@ == backslashed(p@),
{
    let v: Vec<char> = text::chars_of(p);
    let mut r: String = String::new();
    let mut i: usize = 0;
    while i < v.len()
        invariant
            i <= v@.len(),
            v@ == p@,
            r@ == backslashed(p@.take(i as int)),
        decreases v@.len() - i,
    {
        r.push(
            if v[i] == '/' {
                '\\'
            } else {
                v[i]
            },
        );
        i = i + 1;
        assert(r@ =~= backslashed(p@.take(i as int)));
    }
    assert(p@.take(i as int) =~= p@);
    r
}

fn two_parts(s: &str, sep: Sep) -> (r: (String, String))
    ensures
        (r.0@, r.1@) == first_two(s@, sep),
{
    let w: Vec<&str> = text::split(s, sep);
    assert(text::views(w@)[0] == w@[0]@);
    if w.len() > 1 {
        assert(text::views(w@)[1] == w@[1]@);
        (w[0].to_owned(), w[1].to_owned())
    } else {
        let none: String = String::new();
        assert(none@ =~= Seq::empty());
        (w[0].to_owned(), none)
    }
}

fn drive(s: &str) -> (d: Option<char>)
    ensures
        d == drive_of(s@),
{
    let v: Vec<char> = text::chars_of(s);
    if v.len() >= 2 && v[1] == ':' && (('a' <= v[0] && v[0] <= 'z') || ('A' <= v[0] && v[0]
        <= 'Z')) {
        Some(text::to_lower_char(v[0]))
    } else {
        None
    }
}

/// An optional prefix.
pub open spec fn opt_prefix(x: Option<Prefix>) -> Option<PrefixView> {
    match x {
        Some(v) => Some(v@),
        None => None,
    }
}

fn verbatim_prefix(p: &str, t: &str) -> (x: Prefix)
    requires
        t@ == backslashed(p@),
        text::begins(t@, "\\\\"@),
        text::begins(p@, "\\\\?\\"@),
    ensures
        windows_prefix(p@) == Some(x@),
{
    proof {
        reveal_strlit("\\\\?\\");
        reveal_strlit("\\\\?\\UNC\\");
    }
    if text::starts_with(t, "\\\\?\\UNC\\") {
        let w: (String, String) = two_parts(from_char(p, 8), Sep::Is('\\'));
        return Prefix::VerbatimShare(w.0, w.1);
    }
    let rest: &str = from_char(p, 4);
    let v: Vec<char> = text::chars_of(rest);
    match drive(rest) {
        Some(c) => if v.len() == 2 || text::cut_here(Sep::Slash, v[2]) {
            Prefix::VerbatimDrive(c)
        } else {
            Prefix::Verbatim(two_parts(rest, Sep::Is('\\')).0)
        },
        None => Prefix::Verbatim(two_parts(rest, Sep::Is('\\')).0),
    }
}

/// The prefix of a path.
pub fn prefix(rules: PathRules, p: &str) -> (x: Option<Prefix>)
    ensures
        opt_prefix(x) == prefix_of(rules, p@),
{
    match rules {
        PathRules::Posix => None,
        PathRules::Windows => {
            proof {
                reveal_strlit("\\\\");
                reveal_strlit("\\\\.\\");
            }
            let text: String = with_backslashes(p);
            let t: &str = text.as_str();
            if !text::starts_with(t, "\\\\") {
                return match drive(p) {
                    Some(c) => Some(Prefix::Drive(c)),
                    None => None,
                };
            }
            if text::starts_with(p, "\\\\?\\") {
                return Some(verbatim_prefix(p, t));
            }
            if text::starts_with(t, "\\\\.\\") {
                return Some(Prefix::Device(two_parts(from_char(p, 4), Sep::Slash).0));
            }
            let w: (String, String) = two_parts(from_char(p, 2), Sep::Slash);
            if !w.0.as_str().is_empty() && !w.1.as_str().is_empty() {
                Some(Prefix::Share(w.0, w.1))
            } else {
                None
            }
        },
    }
}

/// What is known of a path before it is cut: its prefix, how long that is and what it means, and
/// whether a separator follows.
struct Start {
    len: usize,
    rooted: bool,
    verbatim: bool,
    rooting: bool,
    drive: bool,
    prefix: Option<Prefix>,
}

fn start_of(rules: PathRules, p: &str) -> (s: Start)
    ensures
        opt_prefix(s.prefix) == prefix_of(rules, p@),
        s.len == prefix_len(prefix_of(rules, p@)),
        s.len <= p@.len() <= usize::MAX,
        s.rooted ==> s.len < p@.len(),
        s.rooted == rooted(rules, p@),
        s.verbatim == is_verbatim(prefix_of(rules, p@)),
        s.rooting == is_rooting(prefix_of(rules, p@)),
        s.drive == (prefix_of(rules, p@) matches Some(PrefixView::Drive(_))),
{
    let v: Vec<char> = text::chars_of(p);
    let x: Option<Prefix> = prefix(rules, p);
    proof {
        lemma_prefix_fits(rules, p@);
    }
    let mut verbatim: bool = false;
    let mut rooting: bool = true;
    let mut is_drive: bool = false;
    let len: usize = match &x {
        None => {
            rooting = false;
            0
        },
        Some(Prefix::Verbatim(n)) => {
            verbatim = true;
            4 + text::chars_of(n.as_str()).len()
        },
        Some(Prefix::VerbatimShare(a, b)) => {
            verbatim = true;
            let second: usize = text::chars_of(b.as_str()).len();
            if second > 0 {
                8 + text::chars_of(a.as_str()).len() + 1 + second
            } else {
                8 + text::chars_of(a.as_str()).len()
            }
        },
        Some(Prefix::VerbatimDrive(_)) => {
            verbatim = true;
            6
        },
        Some(Prefix::Device(n)) => 4 + text::chars_of(n.as_str()).len(),
        Some(Prefix::Share(a, b)) => 3 + text::chars_of(a.as_str()).len() + text::chars_of(
            b.as_str(),
        ).len(),
        Some(Prefix::Drive(_)) => {
            rooting = false;
            is_drive = true;
            2
        },
    };
    let has_root: bool = len < v.len() && text::cut_here(separates(rules), v[len]);
    Start { len, rooted: has_root, verbatim, rooting, drive: is_drive, prefix: x }
}

/// Whether a path is absolute.
pub fn absolute(rules: PathRules, p: &str) -> (r: bool)
    ensures
        r == is_absolute(rules, p@),
{
    let s: Start = start_of(rules, p);
    match rules {
        PathRules::Posix => s.rooted,
        PathRules::Windows => s.prefix.is_some() && (s.rooted || s.rooting),
    }
}

fn dot() -> (s: String)
    ensures
        s@ == here(),
{
    let v: Vec<char> = vec!['.'];
    let s: String = text::string_of(&v);
    assert(s@ =~= here());
    s
}

fn dots() -> (s: String)
    ensures
        s@ == up(),
{
    let v: Vec<char> = vec!['.', '.'];
    let s: String = text::string_of(&v);
    assert(s@ =~= up());
    s
}

/// The components of a path.
pub fn part_list(rules: PathRules, p: &str) -> (out: Vec<Part>)
    ensures
        part_views(out@) == components(rules, p@),
{
    let start: Start = start_of(rules, p);
    let from: usize = if start.rooted {
        start.len + 1
    } else {
        start.len
    };
    let verbatim: bool = start.verbatim;
    let sep: Sep = if verbatim {
        Sep::Is('\\')
    } else {
        separates(rules)
    };
    let words: Vec<&str> = text::split(from_char(p, from), sep);
    let ghost a = body_words(rules, p@);
    assert(text::views(words@) == a);
    assert(text::views(words@)[0] == words@[0]@);
    let one: String = dot();
    let mut out: Vec<Part> = Vec::new();
    let bare: bool = start.prefix.is_none();
    if let Some(x) = start.prefix {
        out.push(Part::Prefix(x));
        assert(part_views(out@) =~= seq![PartView::Prefix(x@)]);
    } else {
        assert(part_views(out@) =~= Seq::<PartView>::empty());
    }
    let ghost first = part_views(out@);
    if start.rooted || (start.rooting && !verbatim) {
        out.push(Part::Root);
        assert(part_views(out@) =~= first.push(PartView::Root));
    } else if bare && text::same(words[0], one.as_str()) {
        out.push(Part::Here);
        assert(part_views(out@) =~= first.push(PartView::Here));
    }
    let ghost head = part_views(out@);
    assert(head == beginning(rules, p@));
    let mut i: usize = 0;
    assert(a.take(0) =~= Seq::<Seq<char>>::empty());
    assert(head + named(a.take(0), verbatim) =~= head);
    while i < words.len()
        invariant
            i <= words@.len(),
            text::views(words@) == a,
            one@ == here(),
            part_views(out@) == head + named(a.take(i as int), verbatim),
        decreases words@.len() - i,
    {
        let w: &str = words[i];
        let ghost before = out@;
        proof {
            assert(a[i as int] == w@);
            assert(a.take(i + 1).drop_last() =~= a.take(i as int));
            assert(a.take(i + 1).last() == w@);
        }
        if !w.is_empty() {
            if !text::same(w, one.as_str()) {
                out.push(Part::Name(w.to_owned()));
                assert(part_views(out@) =~= part_views(before).push(PartView::Name(w@)));
            } else if verbatim {
                out.push(Part::Here);
                assert(part_views(out@) =~= part_views(before).push(PartView::Here));
            }
        }
        i = i + 1;
        assert(part_views(out@) =~= head + named(a.take(i as int), verbatim));
    }
    assert(a.len() == words@.len());
    assert(a.take(a.len() as int) =~= a);
    out
}

fn same_prefix(a: &Prefix, b: &Prefix) -> (r: bool)
    ensures
        r == (a@ == b@),
{
    match (a, b) {
        (Prefix::Verbatim(x), Prefix::Verbatim(y)) => text::same(x.as_str(), y.as_str()),
        (Prefix::Device(x), Prefix::Device(y)) => text::same(x.as_str(), y.as_str()),
        (Prefix::VerbatimShare(x, u), Prefix::VerbatimShare(y, v)) => text::same(
            x.as_str(),
            y.as_str(),
        ) && text::same(u.as_str(), v.as_str()),
        (Prefix::Share(x, u), Prefix::Share(y, v)) => text::same(x.as_str(), y.as_str())
            && text::same(u.as_str(), v.as_str()),
        (Prefix::VerbatimDrive(x), Prefix::VerbatimDrive(y)) => *x == *y,
        (Prefix::Drive(x), Prefix::Drive(y)) => *x == *y,
        _ => false,
    }
}

fn same_part(a: &Part, b: &Part) -> (r: bool)
    ensures
        r == (a@ == b@),
{
    match (a, b) {
        (Part::Prefix(x), Part::Prefix(y)) => same_prefix(x, y),
        (Part::Name(x), Part::Name(y)) => text::same(x.as_str(), y.as_str()),
        (Part::Root, Part::Root) => true,
        (Part::Here, Part::Here) => true,
        _ => false,
    }
}

/// Whether `root` holds `p`, component by component.
pub fn is_under(rules: PathRules, p: &str, root: &str) -> (r: bool)
    ensures
        r == under(rules, p@, root@),
{
    let a: Vec<Part> = part_list(rules, p);
    let b: Vec<Part> = part_list(rules, root);
    let ghost ca = part_views(a@);
    let ghost cb = part_views(b@);
    assert(ca.len() == a@.len() && cb.len() == b@.len());
    if b.len() > a.len() {
        return false;
    }
    let mut i: usize = 0;
    while i < b.len()
        invariant
            i <= b@.len() <= a@.len(),
            ca == part_views(a@),
            cb == part_views(b@),
            ca == components(rules, p@),
            cb == components(rules, root@),
            forall|k: int| 0 <= k < i ==> #[trigger] ca[k] == cb[k],
        decreases b@.len() - i,
    {
        assert(ca[i as int] == a@[i as int]@ && cb[i as int] == b@[i as int]@);
        if !same_part(&a[i], &b[i]) {
            assert(ca.take(cb.len() as int)[i as int] != cb[i as int]);
            return false;
        }
        i = i + 1;
    }
    assert(ca.take(cb.len() as int) =~= cb);
    true
}

/// Whether a path climbs.
pub fn has_parent_part(rules: PathRules, p: &str) -> (r: bool)
    ensures
        r == climbs(rules, p@),
{
    let all: Vec<Part> = part_list(rules, p);
    let ghost a = part_views(all@);
    let two: String = dots();
    let mut i: usize = 0;
    while i < all.len()
        invariant
            i <= all@.len(),
            a == part_views(all@),
            a == components(rules, p@),
            two@ == up(),
            forall|k: int| 0 <= k < i ==> #[trigger] a[k] != PartView::Name(up()),
        decreases all@.len() - i,
    {
        assert(a[i as int] == all@[i as int]@);
        if let Part::Name(n) = &all[i] {
            if text::same(n.as_str(), two.as_str()) {
                assert(a[i as int] == PartView::Name(up()));
                return true;
            }
        }
        i = i + 1;
    }
    assert(a.len() == all@.len());
    false
}

fn walk(base: Vec<Part>, add: &Vec<Part>) -> (out: Vec<Part>)
    requires
        base@.len() > 0,
        base@[0] is Prefix,
    ensures
        part_views(out@) == walked(part_views(base@), part_views(add@), add@.len() as int),
{
    let ghost from = part_views(base@);
    let ghost steps = part_views(add@);
    let two: String = dots();
    let mut out: Vec<Part> = base;
    let mut i: usize = 0;
    while i < add.len()
        invariant
            i <= add@.len(),
            steps == part_views(add@),
            two@ == up(),
            out@.len() > 0,
            out@[0] is Prefix,
            part_views(out@) == walked(from, steps, i as int),
        decreases add@.len() - i,
    {
        let ghost before = out@;
        let ghost b = part_views(before);
        assert(steps[i as int] == add@[i as int]@);
        assert(b.len() == before.len());
        match &add[i] {
            Part::Root => {
                out.truncate(1);
                out.push(Part::Root);
                assert(part_views(out@) =~= b.take(1).push(PartView::Root));
            },
            Part::Name(w) => {
                if !text::same(w.as_str(), two.as_str()) {
                    out.push(Part::Name(w.clone()));
                    assert(part_views(out@) =~= b.push(PartView::Name(w@)));
                } else {
                    assert(b.last() == before[before.len() - 1]@);
                    let takes: bool = match &out[out.len() - 1] {
                        Part::Name(n) => !text::same(n.as_str(), two.as_str()),
                        _ => false,
                    };
                    if takes {
                        let _name: Option<Part> = out.pop();
                        assert(part_views(out@) =~= b.drop_last());
                    }
                }
            },
            _ => {},
        }
        i = i + 1;
        assert(part_views(out@) == walked(from, steps, i as int));
    }
    assert(steps.len() == add@.len());
    out
}

fn write(parts: &Vec<Part>, raw: &str) -> (s: String)
    ensures
        s@ == written(part_views(parts@), raw@, parts@.len() as int),
{
    let ghost all = part_views(parts@);
    let mut s: String = String::new();
    assert(s@ =~= Seq::empty());
    let mut after_root: bool = true;
    let mut i: usize = 0;
    while i < parts.len()
        invariant
            i <= parts@.len(),
            all == part_views(parts@),
            s@ == written(all, raw@, i as int),
            after_root == (i == 0 || all[i - 1] is Root),
        decreases parts@.len() - i,
    {
        assert(all[i as int] == parts@[i as int]@);
        let x: &Part = &parts[i];
        let root: bool = matches!(x, Part::Root);
        if !after_root && !root {
            s = s.concat("\\");
        }
        s = match x {
            Part::Prefix(_) => s.concat(raw),
            Part::Root => s.concat("\\"),
            Part::Here => s.concat(dot().as_str()),
            Part::Name(w) => s.concat(w.as_str()),
        };
        after_root = root;
        i = i + 1;
    }
    s
}

/// A path put behind a directory.
pub fn join_path(rules: PathRules, dir: &str, rest: &str) -> (r: String)
    ensures
        r@ == joined_path(rules, dir@, rest@),
{
    let d: Start = start_of(rules, dir);
    let t: Start = start_of(rules, rest);
    let v: Vec<char> = text::chars_of(dir);
    if t.prefix.is_some() {
        rest.to_owned()
    } else if d.verbatim && !rest.is_empty() {
        let base: Vec<Part> = part_list(rules, dir);
        let add: Vec<Part> = part_list(rules, rest);
        proof {
            let all = part_views(base@);
            assert(all.len() == base@.len());
            assert(beginning(rules, dir@).len() > 0);
            assert(all[0] is Prefix);
            assert(all[0] == base@[0]@);
        }
        assert(part_views(add@).len() == add@.len());
        let all: Vec<Part> = walk(base, &add);
        assert(part_views(all@).len() == all@.len());
        write(&all, up_to_char(dir, d.len))
    } else if t.rooted {
        up_to_char(dir, d.len).to_owned().concat(rest)
    } else if v.len() > 0 && !text::cut_here(separates(rules), v[v.len() - 1]) && !(d.drive
        && v.len() == 2) {
        match rules {
            PathRules::Posix => dir.to_owned().concat("/").concat(rest),
            PathRules::Windows => dir.to_owned().concat("\\").concat(rest),
        }
    } else {
        dir.to_owned().concat(rest)
    }
}

/// A root holds itself, and whatever a root in it holds.
pub proof fn roots_nest(rules: PathRules, p: Seq<char>, inner: Seq<char>, outer: Seq<char>)
    ensures
        under(rules, p, p),
        under(rules, p, inner) && under(rules, inner, outer) ==> under(rules, p, outer),
{
    let c = components(rules, p);
    assert(c.take(c.len() as int) =~= c);
    if under(rules, p, inner) && under(rules, inner, outer) {
        let i = components(rules, inner);
        let o = components(rules, outer);
        assert(c.take(o.len() as int) =~= i.take(o.len() as int)) by {
            assert forall|k: int| 0 <= k < o.len() implies c[k] == i[k] by {
                assert(c.take(i.len() as int)[k] == i[k]);
            }
        }
    }
}

/// Of the first word of a text only the front matters: cut behind another text, it goes on from
/// that one's last word, and the words before stay.
proof fn lemma_parts_go_on(a: Seq<char>, b: Seq<char>, sep: Sep, from: int)
    requires
        0 <= from <= a.len(),
    ensures
        text::parts_from(a, sep, from).len() > 0,
        ({
            let w = text::parts_from(a, sep, from);
            text::parts_from(a + b, sep, from) == w.drop_last() + text::parts(w.last() + b, sep)
        }),
        forall|k: int|
            0 <= k < text::parts_from(a, sep, from).last().len() ==> !text::cuts(
                sep,
                #[trigger] text::parts_from(a, sep, from).last()[k],
            ),
    decreases a.len() - from,
{
    let w = text::parts_from(a, sep, from);
    text::lemma_next_cut(a, sep, from);
    let end = text::next_cut(a, sep, from);
    if end < a.len() {
        lemma_parts_go_on(a, b, sep, end + 1);
        lemma_cut_stays(a, b, sep, from);
        let v = text::parts_from(a, sep, end + 1);
        let head = a.subrange(from, end);
        assert((a + b).subrange(from, end) =~= head);
        assert(w =~= seq![head] + v);
        assert(w.last() == v.last());
        assert(w.drop_last() =~= seq![head] + v.drop_last());
        assert(seq![head] + (v.drop_last() + text::parts(v.last() + b, sep)) =~= w.drop_last()
            + text::parts(w.last() + b, sep));
    } else {
        let last = a.subrange(from, a.len() as int);
        assert(w =~= seq![last]);
        assert(w.drop_last() =~= Seq::<Seq<char>>::empty());
        assert(w.last() == last);
        lemma_parts_shift(a + b, sep, from, 0);
        assert((a + b).skip(from) =~= last + b);
        assert(Seq::<Seq<char>>::empty() + text::parts(last + b, sep) =~= text::parts(
            last + b,
            sep,
        ));
    }
}

proof fn lemma_cut_stays(a: Seq<char>, b: Seq<char>, sep: Sep, from: int)
    requires
        0 <= from <= a.len(),
        text::next_cut(a, sep, from) < a.len(),
    ensures
        text::next_cut(a + b, sep, from) == text::next_cut(a, sep, from),
    decreases a.len() - from,
{
    assert((a + b)[from] == a[from]);
    if !text::cuts(sep, a[from]) {
        lemma_cut_stays(a, b, sep, from + 1);
    }
}

proof fn lemma_cut_shift(s: Seq<char>, sep: Sep, off: int, from: int)
    requires
        0 <= off,
        0 <= from,
        off + from <= s.len(),
    ensures
        text::next_cut(s, sep, off + from) == off + text::next_cut(s.skip(off), sep, from),
    decreases s.len() - off - from,
{
    if off + from < s.len() {
        assert(s.skip(off)[from] == s[off + from]);
        if !text::cuts(sep, s[off + from]) {
            lemma_cut_shift(s, sep, off, from + 1);
        }
    }
}

proof fn lemma_parts_shift(s: Seq<char>, sep: Sep, off: int, from: int)
    requires
        0 <= off,
        0 <= from,
        off + from <= s.len(),
    ensures
        text::parts_from(s, sep, off + from) == text::parts_from(s.skip(off), sep, from),
    decreases s.len() - off - from,
{
    lemma_cut_shift(s, sep, off, from);
    text::lemma_next_cut(s, sep, off + from);
    let t = s.skip(off);
    let end = text::next_cut(t, sep, from);
    if off + end < s.len() {
        lemma_parts_shift(s, sep, off, end + 1);
        assert(s.subrange(off + from, off + end) =~= t.subrange(from, end));
    } else {
        assert(s.subrange(off + from, s.len() as int) =~= t.subrange(from, t.len() as int));
    }
}

/// A word that nothing cuts, a separator and a text are that word and the text's words.
proof fn lemma_word_and_rest(w: Seq<char>, c: char, b: Seq<char>, sep: Sep)
    requires
        text::cuts(sep, c),
        forall|k: int| 0 <= k < w.len() ==> !text::cuts(sep, #[trigger] w[k]),
    ensures
        text::parts(w + seq![c] + b, sep) == seq![w] + text::parts(b, sep),
        text::parts(w, sep) == seq![w],
{
    let s = w + seq![c] + b;
    text::lemma_next_cut(s, sep, 0);
    let end = text::next_cut(s, sep, 0);
    assert(s[w.len() as int] == c);
    if end < w.len() {
        assert(s[end] == w[end]);
    }
    assert(end == w.len());
    assert(s.subrange(0, end) =~= w);
    lemma_parts_shift(s, sep, end + 1, 0);
    assert(s.skip(end + 1) =~= b);
    text::lemma_next_cut(w, sep, 0);
    assert(text::next_cut(w, sep, 0) == w.len());
    assert(w.subrange(0, w.len() as int) =~= w);
}

proof fn lemma_named_joins(a: Seq<Seq<char>>, b: Seq<Seq<char>>, verbatim: bool)
    ensures
        named(a + b, verbatim) == named(a, verbatim) + named(b, verbatim),
    decreases b.len(),
{
    if b.len() == 0 {
        assert(a + b =~= a);
        assert(named(a, verbatim) + Seq::<PartView>::empty() =~= named(a, verbatim));
    } else {
        lemma_named_joins(a, b.drop_last(), verbatim);
        assert((a + b).drop_last() =~= a + b.drop_last());
        assert((a + b).last() == b.last());
        let x = named(a, verbatim);
        let y = named(b.drop_last(), verbatim);
        assert(x + named(b, verbatim) =~= named(a + b, verbatim));
    }
}

/// What a path is on a POSIX system: its words between slashes, behind the root if it has one.
proof fn lemma_posix(p: Seq<char>)
    ensures
        prefix_of(PathRules::Posix, p) is None,
        rooted(PathRules::Posix, p) == (p.len() > 0 && p[0] == '/'),
        body(PathRules::Posix, p) == if p.len() > 0 && p[0] == '/' {
            p.skip(1)
        } else {
            p
        },
        body_words(PathRules::Posix, p) == text::parts(body(PathRules::Posix, p), Sep::Is('/')),
{
    assert(p.skip(0) =~= p);
}

/// On POSIX a path is absolute exactly when it begins with a slash, and has no prefix. On Windows
/// a slash alone does not make it so, nor a drive alone; a drive and a slash do.
pub proof fn an_absolute_path_begins_at_the_root(
    p: &str,
    posix: bool,
    windows: bool,
    none: Option<Prefix>,
    x: Option<Prefix>,
)
    requires
        call_ensures(absolute, (PathRules::Posix, p), posix),
        call_ensures(absolute, (PathRules::Windows, p), windows),
        call_ensures(prefix, (PathRules::Posix, p), none),
        call_ensures(prefix, (PathRules::Windows, p), x),
    ensures
        posix <==> p@.len() > 0 && p@[0] == '/',
        none is None,
        p@.len() >= 2 && is_letter(p@[0]) && p@[1] == ':' ==> {
            &&& windows <==> p@.len() > 2 && (p@[2] == '/' || p@[2] == '\\')
            &&& x matches Some(Prefix::Drive(c)) && (if 'A' <= p@[0] <= 'Z' {
                c as int == p@[0] as int + 32
            } else {
                c == p@[0]
            })
        },
        p@.len() > 0 && !(p@[0] == '/' || p@[0] == '\\') && !(p@.len() >= 2 && p@[1] == ':')
            ==> !windows && x is None,
        p@.len() > 0 && (p@[0] == '/' || p@[0] == '\\') && (p@.len() < 2 || !(p@[1] == '/' || p@[1]
            == '\\')) ==> !windows && x is None,
        p@.len() == 0 ==> !windows && !posix,
{
    lemma_posix(p@);
    reveal_strlit("\\\\");
    let t = backslashed(p@);
    if text::begins(t, "\\\\"@) {
        assert(t.take(2)[0] == '\\' && t.take(2)[1] == '\\');
        assert(t[0] == '\\' && t[1] == '\\');
        assert(p@[0] == '/' || p@[0] == '\\');
        assert(p@[1] == '/' || p@[1] == '\\');
    }
}

pub open spec fn is_letter(c: char) -> bool {
    'a' <= c <= 'z' || 'A' <= c <= 'Z'
}

/// On POSIX a path behind a directory is the two with one slash between, and an absolute one
/// stands for itself; on Windows one with a drive does.
pub proof fn a_path_goes_behind_its_directory(
    dir: &str,
    rest: &str,
    posix: String,
    windows: String,
)
    requires
        call_ensures(join_path, (PathRules::Posix, dir, rest), posix),
        call_ensures(join_path, (PathRules::Windows, dir, rest), windows),
    ensures
        rest@.len() > 0 && rest@[0] == '/' ==> posix@ == rest@,
        dir@.len() == 0 ==> posix@ == rest@,
        dir@.len() > 0 && dir@.last() == '/' && !(rest@.len() > 0 && rest@[0] == '/') ==> posix@
            == dir@ + rest@,
        dir@.len() > 0 && dir@.last() != '/' && !(rest@.len() > 0 && rest@[0] == '/') ==> posix@
            == dir@ + seq!['/'] + rest@,
        rest@.len() >= 2 && is_letter(rest@[0]) && rest@[1] == ':' ==> windows@ == rest@,
        dir@.len() > 2 && is_letter(dir@[0]) && dir@[1] == ':' && !(dir@.last() == '/' || dir@.last()
            == '\\') && rest@.len() > 0 && !(rest@[0] == '/' || rest@[0] == '\\') && !(rest@.len()
            >= 2 && rest@[1] == ':') ==> windows@ == dir@ + seq!['\\'] + rest@,
{
    lemma_posix(dir@);
    lemma_posix(rest@);
    reveal_strlit("/");
    reveal_strlit("\\");
    reveal_strlit("\\\\");
    assert("/"@ =~= seq!['/']);
    assert("\\"@ =~= seq!['\\']);
    assert(dir@.take(0) =~= Seq::<char>::empty());
    assert(Seq::<char>::empty() + rest@ =~= rest@);
    if dir@.len() == 0 {
        assert(dir@ + rest@ =~= rest@);
    }
    let t = backslashed(rest@);
    if text::begins(t, "\\\\"@) {
        assert(t.take(2)[0] == '\\');
        assert(t[0] == '\\');
    }
    let u = backslashed(dir@);
    if text::begins(u, "\\\\"@) {
        assert(u.take(2)[0] == '\\');
        assert(u[0] == '\\');
    }
}

/// What is put behind a directory stands under it: a POSIX path without a root of its own, joined
/// to a directory, is held by it.
pub proof fn what_is_joined_is_under(dir: &str, rest: &str, joined: String, p: &str, r: bool)
    requires
        dir@.len() > 0,
        !(rest@.len() > 0 && rest@[0] == '/'),
        call_ensures(join_path, (PathRules::Posix, dir, rest), joined),
        p@ == joined@,
        call_ensures(is_under, (PathRules::Posix, p, dir), r),
    ensures
        r,
{
    let sep = Sep::Is('/');
    lemma_posix(dir@);
    lemma_posix(rest@);
    reveal_strlit("/");
    assert("/"@ =~= seq!['/']);
    let ends = dir@.last() == '/';
    let tail = if ends {
        rest@
    } else {
        seq!['/'] + rest@
    };
    assert(p@ =~= dir@ + tail);
    lemma_posix(p@);
    assert(p@[0] == dir@[0]);
    let bd = body(PathRules::Posix, dir@);
    let bp = body(PathRules::Posix, p@);
    assert(bp =~= bd + tail);
    lemma_parts_go_on(bd, tail, sep, 0);
    let w = text::parts(bd, sep);
    let last = w.last();
    assert forall|k: int| 0 <= k < last.len() implies !text::cuts(sep, #[trigger] last[k]) by {}
    if ends {
        if bd.len() == 0 {
            assert(w[0].len() == 0);
        } else {
            assert(bd.last() == '/');
            lemma_ends_empty(bd, sep, 0);
        }
        assert(last.len() == 0);
        assert(last + tail =~= tail);
        assert(named(w, false) == named(w.drop_last(), false));
        lemma_named_joins(w.drop_last(), text::parts(tail, sep), false);
    } else {
        lemma_word_and_rest(last, '/', rest@, sep);
        assert(last + tail =~= last + seq!['/'] + rest@);
        let more = text::parts(rest@, sep);
        assert(w.drop_last() + (seq![last] + more) =~= w + more);
        lemma_named_joins(w, more, false);
    }
    let a = components(PathRules::Posix, dir@);
    let b = components(PathRules::Posix, p@);
    // The first word decides whether a `.` begins the path.
    if !rooted(PathRules::Posix, dir@) {
        if ends {
            if w.len() == 1 {
                assert(w[0] == last);
                assert(bd.len() > 0);
                lemma_one_word(bd, sep);
            }
        }
        assert(body_words(PathRules::Posix, p@)[0] == w[0]);
    }
    assert(beginning(PathRules::Posix, p@) == beginning(PathRules::Posix, dir@));
    assert(b.take(a.len() as int) =~= a);
}

proof fn lemma_ends_empty(s: Seq<char>, sep: Sep, from: int)
    requires
        0 <= from <= s.len(),
        s.len() > 0,
        text::cuts(sep, s.last()),
    ensures
        text::parts_from(s, sep, from).len() > 0,
        text::parts_from(s, sep, from).last().len() == 0,
    decreases s.len() - from,
{
    text::lemma_next_cut(s, sep, from);
    let end = text::next_cut(s, sep, from);
    if end < s.len() {
        lemma_ends_empty(s, sep, end + 1);
        let v = text::parts_from(s, sep, end + 1);
        assert((seq![s.subrange(from, end)] + v).last() == v.last());
    } else if from < s.len() {
        assert(!text::cuts(sep, s[s.len() - 1]));
    }
}

proof fn lemma_one_word(s: Seq<char>, sep: Sep)
    requires
        text::parts(s, sep).len() == 1,
    ensures
        text::parts(s, sep)[0] == s,
{
    text::lemma_next_cut(s, sep, 0);
    let end = text::next_cut(s, sep, 0);
    if end < s.len() {
        lemma_parts_go_on(s, Seq::empty(), sep, end + 1);
    } else {
        assert(s.subrange(0, s.len() as int) =~= s);
    }
}

/// A name that only begins like a directory's is not under it: the words are compared whole.
pub proof fn a_longer_name_is_not_under(root: &str, p: &str, c: char, t: Seq<char>, r: bool)
    requires
        call_ensures(is_under, (PathRules::Posix, p, root), r),
        p@ == root@ + seq![c] + t,
        c != '/',
        root@.len() > 0,
        root@.last() != '/',
        root@.last() != '.',
    ensures
        !r,
{
    let sep = Sep::Is('/');
    let more = seq![c] + t;
    assert(p@ =~= root@ + more);
    lemma_posix(root@);
    lemma_posix(p@);
    assert(p@[0] == root@[0]);
    let br = body(PathRules::Posix, root@);
    let bp = body(PathRules::Posix, p@);
    assert(bp =~= br + more);
    assert(br.len() > 0 && br.last() == root@.last());
    lemma_parts_go_on(br, more, sep, 0);
    let w = text::parts(br, sep);
    let last = w.last();
    lemma_last_word(br, sep, 0);
    assert(last.len() > 0 && last.last() == br.last());
    assert(last != here());
    let v = text::parts(last + more, sep);
    // The word goes on behind the root's last one.
    text::lemma_next_cut(last + more, sep, 0);
    let end = text::next_cut(last + more, sep, 0);
    assert(end > last.len()) by {
        if end < last.len() {
            assert((last + more)[end] == last[end]);
            assert(!text::cuts(sep, last[end]));
        }
        if end == last.len() {
            assert((last + more)[end] == c);
        }
    }
    assert(v[0].len() == end);
    assert(v[0] != last && v[0].len() > 1);
    assert(v[0] != here());
    lemma_named_joins(w.drop_last(), v, false);
    assert(w =~= w.drop_last() + seq![last]);
    lemma_named_joins(w.drop_last(), seq![last], false);
    assert(seq![last].drop_last() =~= Seq::<Seq<char>>::empty());
    assert(named(seq![last], false) =~= seq![PartView::Name(last)]);
    lemma_first_name(v);
    let a = components(PathRules::Posix, root@);
    let b = components(PathRules::Posix, p@);
    if w.len() > 1 {
        assert(body_words(PathRules::Posix, p@)[0] == w[0]);
    } else {
        assert(w[0] == last);
        assert(body_words(PathRules::Posix, p@)[0] == v[0]);
    }
    let n = beginning(PathRules::Posix, root@).len() + named(w.drop_last(), false).len();
    assert(beginning(PathRules::Posix, p@) == beginning(PathRules::Posix, root@));
    assert(a[n as int] == PartView::Name(last));
    assert(b[n as int] == PartView::Name(v[0]));
    if r {
        assert(b.take(a.len() as int)[n as int] == a[n as int]);
    }
}

proof fn lemma_last_word(s: Seq<char>, sep: Sep, from: int)
    requires
        0 <= from < s.len(),
        !text::cuts(sep, s.last()),
    ensures
        text::parts_from(s, sep, from).len() > 0,
        text::parts_from(s, sep, from).last().len() > 0,
        text::parts_from(s, sep, from).last().last() == s.last(),
    decreases s.len() - from,
{
    text::lemma_next_cut(s, sep, from);
    let end = text::next_cut(s, sep, from);
    if end < s.len() {
        assert(end < s.len() - 1) by {
            if end == s.len() - 1 {
                assert(text::cuts(sep, s[end]));
            }
        }
        lemma_last_word(s, sep, end + 1);
        let v = text::parts_from(s, sep, end + 1);
        assert((seq![s.subrange(from, end)] + v).last() == v.last());
    }
}

proof fn lemma_first_name(v: Seq<Seq<char>>)
    requires
        v.len() > 0,
        v[0].len() > 0,
        v[0] != here(),
    ensures
        named(v, false).len() > 0,
        named(v, false)[0] == PartView::Name(v[0]),
    decreases v.len(),
{
    if v.len() == 1 {
        assert(v.drop_last() =~= Seq::<Seq<char>>::empty());
        assert(named(v.drop_last(), false) =~= Seq::<PartView>::empty());
    } else {
        lemma_first_name(v.drop_last());
    }
}

/// A path climbs where `..` stands between two slashes, and only where `..` stands at all.
#[verifier::spinoff_prover]
#[verifier::rlimit(90)]
pub proof fn a_climb_is_written_with_two_dots(
    p: &str,
    r: bool,
    a: Seq<char>,
    b: Seq<char>,
)
    requires
        call_ensures(has_parent_part, (PathRules::Posix, p), r),
    ensures
        p@ == a + seq!['/', '.', '.', '/'] + b ==> r,
        p@ == a + seq!['/', '.', '.'] ==> r,
        p@ == seq!['.', '.'] ==> r,
        r ==> text::holds(p@, seq!['.', '.']),
{
    let sep = Sep::Is('/');
    lemma_posix(p@);
    let w = body_words(PathRules::Posix, p@);
    let bp = body(PathRules::Posix, p@);
    lemma_named_holds(w, up());
    let c = components(PathRules::Posix, p@);
    let n = named(w, false);
    let h = beginning(PathRules::Posix, p@);
    assert(c == h + n);
    if r {
        let i = choose|i: int| 0 <= i < c.len() && c[i] == PartView::Name(up());
        if i < h.len() {
            assert(h[i] is Root || h[i] is Here);
        }
        assert(n[i - h.len()] == PartView::Name(up()));
        assert(n.contains(PartView::Name(up())));
        let k = choose|k: int| 0 <= k < w.len() && w[k] == up();
        lemma_word_stands(bp, sep, 0, k);
        let at = choose|at: int|
            0 <= at && at + up().len() <= bp.len() && #[trigger] bp.subrange(at, at + up().len())
                == up();
        let off = p@.len() - bp.len();
        assert(p@.subrange(at + off, at + off + up().len()) =~= bp.subrange(at, at + up().len()));
        assert(p@.subrange(at + off, at + off + seq!['.', '.'].len()) =~= seq!['.', '.']);
    }
    let inner = p@ == a + seq!['/', '.', '.', '/'] + b;
    let ending = p@ == a + seq!['/', '.', '.'];
    if inner || ending {
        let tail = if inner {
            seq!['/'] + b
        } else {
            Seq::<char>::empty()
        };
        assert(p@ =~= a + seq!['/'] + up() + tail);
        if a.len() == 0 {
            assert(p@[0] == '/');
            assert(bp =~= up() + tail);
        } else {
            assert(p@[0] == a[0]);
            let front = if a[0] == '/' {
                a.skip(1)
            } else {
                a
            };
            assert(bp =~= front + (seq!['/'] + up() + tail));
            lemma_parts_go_on(front, seq!['/'] + up() + tail, sep, 0);
            let last = text::parts(front, sep).last();
            assert(last + (seq!['/'] + up() + tail) =~= last + seq!['/'] + (up() + tail));
            lemma_word_and_rest(last, '/', up() + tail, sep);
        }
        if inner {
            lemma_word_and_rest(up(), '/', b, sep);
            assert(up() + tail =~= up() + seq!['/'] + b);
        } else {
            lemma_word_and_rest(up(), '/', b, sep);
            assert(up() + tail =~= up());
        }
        let v = text::parts(up() + tail, sep);
        assert(v[0] == up());
        if a.len() == 0 {
            assert(w[0] == up());
        } else {
            let front = if a[0] == '/' {
                a.skip(1)
            } else {
                a
            };
            let k = text::parts(front, sep).len() as int;
            assert(w[k] == v[0]);
        }
        assert(w.contains(up()));
        let i = choose|i: int| 0 <= i < n.len() && n[i] == PartView::Name(up());
        assert(c[h.len() + i] == PartView::Name(up()));
    }
    if p@ == seq!['.', '.'] {
        assert(p@[0] == '.');
        lemma_word_and_rest(up(), '/', b, sep);
        assert(w[0] == up());
        assert(w.contains(up()));
        let i = choose|i: int| 0 <= i < n.len() && n[i] == PartView::Name(up());
        assert(c[h.len() + i] == PartView::Name(up()));
    }
}

proof fn lemma_named_holds(w: Seq<Seq<char>>, x: Seq<char>)
    requires
        x.len() > 1,
    ensures
        named(w, false).contains(PartView::Name(x)) <==> w.contains(x),
    decreases w.len(),
{
    if w.len() > 0 {
        let d = w.drop_last();
        lemma_named_holds(d, x);
        let n = named(w, false);
        let m = named(d, false);
        if w.contains(x) {
            let k = choose|k: int| 0 <= k < w.len() && w[k] == x;
            if k < d.len() {
                assert(d[k] == x);
                let i = choose|i: int| 0 <= i < m.len() && m[i] == PartView::Name(x);
                assert(n[i] == PartView::Name(x));
            } else {
                assert(n[m.len() as int] == PartView::Name(x));
            }
        }
        if n.contains(PartView::Name(x)) {
            let i = choose|i: int| 0 <= i < n.len() && n[i] == PartView::Name(x);
            if i < m.len() {
                assert(m[i] == PartView::Name(x));
                let k = choose|k: int| 0 <= k < d.len() && d[k] == x;
                assert(w[k] == x);
            } else {
                assert(w[w.len() - 1] == x);
            }
        }
    }
}

proof fn lemma_word_stands(s: Seq<char>, sep: Sep, from: int, k: int)
    requires
        0 <= from <= s.len(),
        0 <= k < text::parts_from(s, sep, from).len(),
    ensures
        text::holds(s, text::parts_from(s, sep, from)[k]),
    decreases s.len() - from,
{
    text::lemma_next_cut(s, sep, from);
    let end = text::next_cut(s, sep, from);
    if end < s.len() {
        if k > 0 {
            lemma_word_stands(s, sep, end + 1, k - 1);
            assert(text::parts_from(s, sep, from)[k] == text::parts_from(s, sep, end + 1)[k - 1]);
        } else {
            let x = s.subrange(from, end);
            assert(s.subrange(from, from + x.len()) =~= x);
        }
    } else {
        let x = s.subrange(from, s.len() as int);
        assert(s.subrange(from, from + x.len()) =~= x);
    }
}

/// A root holds itself and whatever a root inside it holds.
pub proof fn what_is_under_stays_under(
    rules: PathRules,
    p: &str,
    inner: &str,
    outer: &str,
    own: bool,
    a: bool,
    b: bool,
    c: bool,
)
    requires
        call_ensures(is_under, (rules, p, p), own),
        call_ensures(is_under, (rules, p, inner), a),
        call_ensures(is_under, (rules, inner, outer), b),
        call_ensures(is_under, (rules, p, outer), c),
    ensures
        own,
        a && b ==> c,
{
    roots_nest(rules, p@, inner@, outer@);
}

/// A path is held by another exactly where the parts of that one are its first parts.
pub proof fn a_root_is_the_first_parts(
    rules: PathRules,
    p: &str,
    root: &str,
    a: Vec<Part>,
    b: Vec<Part>,
    r: bool,
)
    requires
        call_ensures(part_list, (rules, p), a),
        call_ensures(part_list, (rules, root), b),
        call_ensures(is_under, (rules, p, root), r),
    ensures
        r <==> b@.len() <= a@.len() && forall|i: int|
            0 <= i < b@.len() ==> (#[trigger] a@[i])@ == b@[i]@,
{
    let x = part_views(a@);
    let y = part_views(b@);
    assert(x.len() == a@.len() && y.len() == b@.len());
    if r {
        assert forall|i: int| 0 <= i < b@.len() implies (#[trigger] a@[i])@ == b@[i]@ by {
            assert(x.take(y.len() as int)[i] == y[i]);
        }
    }
    if b@.len() <= a@.len() && (forall|i: int|
        0 <= i < b@.len() ==> (#[trigger] a@[i])@ == b@[i]@) {
        assert forall|i: int| 0 <= i < y.len() implies x.take(y.len() as int)[i] == y[i] by {
            assert(a@[i]@ == b@[i]@);
        }
        assert(x.take(y.len() as int) =~= y);
    }
}

/// A text without a slash of either kind.
pub open spec fn no_slash(s: Seq<char>) -> bool {
    forall|k: int| 0 <= k < s.len() ==> #[trigger] s[k] != '/' && s[k] != '\\'
}

/// A path on a share is known by its server and its share, whatever follows them; one on a drive
/// by its letter, whatever the case. A path with plain slashes alone has no prefix.
#[verifier::spinoff_prover]
#[verifier::rlimit(60)]
pub proof fn a_share_is_its_server_and_name(
    p: &str,
    x: Option<Prefix>,
    posix: Option<Prefix>,
    a: Seq<char>,
    b: Seq<char>,
    t: Seq<char>,
    d: char,
)
    requires
        call_ensures(prefix, (PathRules::Windows, p), x),
        call_ensures(prefix, (PathRules::Posix, p), posix),
        a.len() > 0 && no_slash(a) && a != seq!['?'] && a != seq!['.'],
        b.len() > 0 && no_slash(b),
    ensures
        p@ == seq!['\\', '\\'] + a + seq!['\\'] + b ==> opt_prefix(x) == Some(
            PrefixView::Share(a, b),
        ),
        p@ == seq!['\\', '\\'] + a + seq!['\\'] + b + seq!['\\'] + t ==> opt_prefix(x) == Some(
            PrefixView::Share(a, b),
        ),
        p@ == seq![d, ':'] + t && ('a' <= d <= 'z' || 'A' <= d <= 'Z') ==> opt_prefix(x) == Some(
            PrefixView::Drive(text::lower_char(d)),
        ),
        posix is None,
{
    let s = p@;
    let back = backslashed(s);
    reveal_strlit("\\\\");
    reveal_strlit("\\\\?\\");
    reveal_strlit("\\\\.\\");
    let whole = s == seq!['\\', '\\'] + a + seq!['\\'] + b;
    let more = s == seq!['\\', '\\'] + a + seq!['\\'] + b + seq!['\\'] + t;
    if whole || more {
        let rest = if whole {
            b
        } else {
            b + seq!['\\'] + t
        };
        assert(s.skip(2) =~= a + seq!['\\'] + rest);
        assert(s[0] == '\\' && s[1] == '\\' && s[2] == a[0]);
        assert(back.take(2) =~= "\\\\"@);
        assert(a[0] != '/' && a[0] != '\\');
        if a.len() == 1 {
            assert(a[0] != '?') by {
                if a[0] == '?' {
                    assert(a =~= seq!['?']);
                }
            }
            assert(a[0] != '.') by {
                if a[0] == '.' {
                    assert(a =~= seq!['.']);
                }
            }
        } else {
            assert(s[3] == a[1]);
            assert(a[1] != '/' && a[1] != '\\');
        }
        if text::begins(s, "\\\\?\\"@) {
            assert(s.take(4)[2] == '?' && s.take(4)[3] == '\\');
        }
        if text::begins(back, "\\\\.\\"@) {
            assert(back.take(4)[2] == '.' && back.take(4)[3] == '\\');
            assert(back[2] == s[2]);
            if a.len() > 1 {
                assert(back[3] == s[3]);
            }
        }
        assert forall|k: int| 0 <= k < a.len() implies !text::cuts(Sep::Slash, #[trigger] a[k]) by {}
        assert forall|k: int| 0 <= k < b.len() implies !text::cuts(Sep::Slash, #[trigger] b[k]) by {}
        lemma_word_and_rest(a, '\\', rest, Sep::Slash);
        lemma_word_and_rest(b, '\\', t, Sep::Slash);
        let w = text::parts(s.skip(2), Sep::Slash);
        assert(w[0] == a);
        assert(w[1] == b);
    }
    if s == seq![d, ':'] + t && ('a' <= d <= 'z' || 'A' <= d <= 'Z') {
        assert(s[0] == d && s[1] == ':');
        if text::begins(back, "\\\\"@) {
            assert(back.take(2)[0] == '\\');
            assert(back[0] == s[0]);
        }
    }
    assert(opt_prefix(posix) is None);
}

} // verus!
