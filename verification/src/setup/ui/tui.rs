//! The rail of the guided installer: prompts, the live line and what is printed, as text.
//!
//! A frame is painted over only while it is the live one. What was printed stays: the transcript
//! is the record of the run. The quiet run keeps one live line instead, and nothing else is
//! printed while it is up but warnings and failures.
//!
//! The terminal and its keys stay with the caller, who carries out what is asked here.

use crate::setup::choices::{Action, Choices, Components, LAN_BIND, LOOPBACK_BIND};
use crate::setup::facts::Channel;
use crate::setup::ui::summary;
use crate::setup::ui::summary::{pad, repeat, Field, Item, Screen, Step};
use crate::text;
use crate::text::Sep;
use vstd::prelude::*;
use vstd::string::StringExecFns;

verus! {

pub const BAR: &'static str = "│";

pub const STEP_ACTIVE: &'static str = "◆";

pub const STEP_DONE: &'static str = "◇";

pub const CURSOR: &'static str = "▸";

pub const RADIO_ON: &'static str = "●";

pub const RADIO_OFF: &'static str = "○";

pub const WARN: &'static str = "▲";

/// Short enough for a couch keyboard, long enough that the console is not open behind four
/// characters.
pub const MIN_PASSWORD: usize = 8;

/// The cells of the live line's bar.
pub const CELLS: usize = 14;

/// What a terminal key stands for.
#[derive(Clone, Copy, Debug, PartialEq, Eq, Structural)]
pub enum TermKey {
    Up,
    Down,
    Enter,
    Space,
    Cancel,
    Backspace,
    Char(char),
    Other,
}

/// How text is set off: whether there are colours, the columns, and the sequences that switch
/// them.
pub struct Style {
    pub colors: bool,
    pub width: u16,
    pub accent: String,
    pub lens: String,
    pub reset: String,
}

/// What the terminal is asked to do.
pub enum TermOp {
    /// Take back that many lines.
    Clear(usize),
    Write(String),
}

/// What the terminal is asked to do.
#[verifier::ext_equal]
pub enum OpView {
    Clear(usize),
    Write(Seq<char>),
}

impl View for TermOp {
    type V = OpView;

    open spec fn view(&self) -> OpView {
        match *self {
            TermOp::Clear(n) => OpView::Clear(n),
            TermOp::Write(t) => OpView::Write(t@),
        }
    }
}

pub open spec fn op_views(v: Seq<TermOp>) -> Seq<OpView> {
    v.map_values(|o: TermOp| o@)
}

fn no_ops() -> (v: Vec<TermOp>)
    ensures
        op_views(v@) == Seq::<OpView>::empty(),
{
    let v: Vec<TermOp> = Vec::new();
    assert(op_views(v@) =~= Seq::<OpView>::empty());
    v
}

fn put(v: &mut Vec<TermOp>, o: TermOp)
    ensures
        op_views(final(v)@) == op_views(old(v)@).push(o@),
{
    let ghost before = v@;
    v.push(o);
    assert(op_views(v@) =~= op_views(before).push(o@));
}

impl Style {
    pub open spec fn dim_of(self, t: Seq<char>) -> Seq<char> {
        if self.colors {
            "\x1b[2m"@ + t + "\x1b[0m"@
        } else {
            t
        }
    }

    pub open spec fn accent_of(self, t: Seq<char>) -> Seq<char> {
        self.accent@ + t + self.reset@
    }

    pub open spec fn lens_of(self, t: Seq<char>) -> Seq<char> {
        self.lens@ + t + self.reset@
    }

    /// A warning's mark in a colour, where there are any.
    pub open spec fn mark_of(self, color: Seq<char>) -> Seq<char> {
        if self.colors {
            color + WARN@ + "\x1b[0m"@
        } else {
            WARN@
        }
    }

    pub fn dim(&self, t: &str) -> (s: String)
        ensures
            s@ == self.dim_of(t@),
    {
        if self.colors {
            "\x1b[2m".to_owned().concat(t).concat("\x1b[0m")
        } else {
            t.to_owned()
        }
    }

    pub fn accented(&self, t: &str) -> (s: String)
        ensures
            s@ == self.accent_of(t@),
    {
        self.accent.clone().concat(t).concat(self.reset.as_str())
    }

    pub fn highlight(&self, t: &str) -> (s: String)
        ensures
            s@ == self.lens_of(t@),
    {
        self.lens.clone().concat(t).concat(self.reset.as_str())
    }

    pub fn bar(&self) -> (s: String)
        ensures
            s@ == self.dim_of(BAR@),
    {
        self.dim(BAR)
    }

    fn mark(&self, color: &str) -> (s: String)
        ensures
            s@ == self.mark_of(color@),
    {
        if self.colors {
            color.to_owned().concat(WARN).concat("\x1b[0m")
        } else {
            WARN.to_owned()
        }
    }
}

pub open spec fn is_letter(c: char) -> bool {
    'a' <= c <= 'z' || 'A' <= c <= 'Z'
}

/// The length of an escape at the front of a line: up to its letter, or all that is left.
pub open spec fn escape_len(s: Seq<char>, k: int) -> int
    decreases s.len() - k,
{
    if k >= s.len() || k < 0 {
        s.len() as int
    } else if is_letter(s[k]) {
        k + 1
    } else {
        escape_len(s, k + 1)
    }
}

proof fn lemma_escape(s: Seq<char>, k: int)
    requires
        0 <= k <= s.len(),
    ensures
        k <= escape_len(s, k) <= s.len(),
        escape_len(s, k) < s.len() ==> escape_len(s, k) > k && is_letter(s[escape_len(s, k) - 1]),
    decreases s.len() - k,
{
    if k < s.len() && !is_letter(s[k]) {
        lemma_escape(s, k + 1);
    }
}

/// A line cut to the columns that are left: an escape takes none, and a cut line is reset.
pub open spec fn fit_line(s: Seq<char>, cols: nat, width: nat, reset: Seq<char>) -> Seq<char>
    decreases s.len(),
    via fit_line_shrinks
{
    if s.len() == 0 {
        Seq::empty()
    } else if s[0] == '\x1b' {
        let n = escape_len(s, 1);
        s.take(n) + fit_line(s.skip(n), cols, width, reset)
    } else if cols == width {
        reset
    } else {
        seq![s[0]] + fit_line(s.skip(1), cols + 1, width, reset)
    }
}

#[via_fn]
proof fn fit_line_shrinks(s: Seq<char>, cols: nat, width: nat, reset: Seq<char>) {
    if s.len() > 0 {
        lemma_escape(s, 1);
    }
}

/// The printable columns of a line.
pub open spec fn columns(s: Seq<char>) -> nat
    decreases s.len(),
    via columns_shrinks
{
    if s.len() == 0 {
        0
    } else if s[0] == '\x1b' {
        columns(s.skip(escape_len(s, 1)))
    } else {
        columns(s.skip(1)) + 1
    }
}

#[via_fn]
proof fn columns_shrinks(s: Seq<char>) {
    if s.len() > 0 {
        lemma_escape(s, 1);
    }
}

/// Lines cut to a width, each ended.
pub open spec fn fit_lines(lines: Seq<Seq<char>>, width: nat, reset: Seq<char>) -> Seq<char>
    decreases lines.len(),
{
    if lines.len() == 0 {
        Seq::empty()
    } else {
        fit_lines(lines.drop_last(), width, reset) + fit_line(lines.last(), 0, width, reset)
            + "\n"@
    }
}

/// The columns a frame may take.
pub open spec fn frame_width(width: u16) -> nat {
    if width < 20 {
        20
    } else {
        width as nat
    }
}

fn fit_one(out: &mut String, line: &str, width: usize, reset: &str)
    ensures
        final(out)@ == old(out)@ + fit_line(line@, 0, width as nat, reset@),
{
    let v: Vec<char> = text::chars_of(line);
    let n: usize = v.len();
    let ghost before = out@;
    let ghost whole = fit_line(line@, 0, width as nat, reset@);
    let mut cols: usize = 0;
    let mut i: usize = 0;
    assert(line@.skip(0) =~= line@);
    while i < n
        invariant
            v@ == line@,
            n == v@.len(),
            i <= n,
            cols <= i,
            cols <= width,
            before == old(out)@,
            whole == fit_line(line@, 0, width as nat, reset@),
            out@ + fit_line(line@.skip(i as int), cols as nat, width as nat, reset@) == before
                + whole,
        decreases n - i,
    {
        let ghost rest = line@.skip(i as int);
        let ghost so_far = out@;
        let c: char = v[i];
        assert(rest[0] == c);
        if c == '\x1b' {
            let ghost e = escape_len(rest, 1);
            proof {
                lemma_escape(rest, 1);
            }
            out.push(c);
            i = i + 1;
            let ghost start = i - 1;
            let mut ended: bool = false;
            assert(out@ =~= so_far + rest.take(1));
            while i < n && !ended
                invariant
                    v@ == line@,
                    n == v@.len(),
                    rest == line@.skip(start),
                    0 <= start < i <= n,
                    e == escape_len(rest, 1),
                    cols <= i,
                    out@ == so_far + rest.take(i - start),
                    !ended ==> e == escape_len(rest, i - start),
                    ended ==> e == i - start,
                decreases n - i,
            {
                let x: char = v[i];
                assert(rest[i - start] == x);
                out.push(x);
                ended = ('a' <= x && x <= 'z') || ('A' <= x && x <= 'Z');
                i = i + 1;
                assert(out@ =~= so_far + rest.take(i - start));
            }
            proof {
                assert(e == i - start);
                assert(rest.skip(e) =~= line@.skip(i as int));
                assert(out@ + fit_line(line@.skip(i as int), cols as nat, width as nat, reset@)
                    =~= so_far + (rest.take(e) + fit_line(
                    rest.skip(e),
                    cols as nat,
                    width as nat,
                    reset@,
                )));
            }
        } else if cols == width {
            out.append(reset);
            return;
        } else {
            out.push(c);
            cols = cols + 1;
            i = i + 1;
            proof {
                assert(rest.skip(1) =~= line@.skip(i as int));
                assert(out@ + fit_line(line@.skip(i as int), cols as nat, width as nat, reset@)
                    =~= so_far + (seq![c] + fit_line(
                    rest.skip(1),
                    cols as nat,
                    width as nat,
                    reset@,
                )));
            }
        }
    }
    assert(line@.skip(i as int) =~= Seq::<char>::empty());
    assert(out@ + Seq::<char>::empty() =~= out@);
}

impl Style {
    /// Cuts a frame to the terminal: a line that wrapped would leave rows behind when it is taken
    /// back.
    pub fn fit(&self, frame: &str) -> (s: String)
        ensures
            s@ == fit_lines(text::lines_of(frame@), frame_width(self.width), self.reset@),
    {
        let width: usize = if self.width < 20 {
            20
        } else {
            self.width as usize
        };
        let lines: Vec<&str> = text::lines(frame);
        let ghost l = text::views(lines@);
        let mut out: String = String::new();
        let mut i: usize = 0;
        assert(l.take(0) =~= Seq::<Seq<char>>::empty());
        while i < lines.len()
            invariant
                i <= lines@.len(),
                l == text::views(lines@),
                width == frame_width(self.width),
                out@ == fit_lines(l.take(i as int), width as nat, self.reset@),
            decreases lines@.len() - i,
        {
            proof {
                assert(l.take(i + 1).drop_last() =~= l.take(i as int));
                assert(l.take(i + 1).last() == lines@[i as int]@);
            }
            fit_one(&mut out, lines[i], width, self.reset.as_str());
            out = out.concat("\n");
            i = i + 1;
        }
        assert(l.take(i as int) =~= l);
        out
    }
}

/// Words put on lines of a width: `done` are full, `cur` is being filled.
pub open spec fn wrapped(
    words: Seq<Seq<char>>,
    k: int,
    done: Seq<Seq<char>>,
    cur: Seq<char>,
    width: nat,
) -> Seq<Seq<char>>
    decreases words.len() - k,
{
    if k >= words.len() || k < 0 {
        if cur.len() > 0 {
            done.push(cur)
        } else {
            done
        }
    } else if cur.len() == 0 {
        wrapped(words, k + 1, done, words[k], width)
    } else if cur.len() + 1 + words[k].len() > width {
        wrapped(words, k + 1, done.push(cur), words[k], width)
    } else {
        wrapped(words, k + 1, done, cur + " "@ + words[k], width)
    }
}

/// The columns prose may take, behind the rail.
pub open spec fn prose_width(width: u16) -> nat {
    if width < 27 {
        24
    } else {
        (width - 3) as nat
    }
}

/// A line of prose on lines of its own.
pub open spec fn wrap_of(s: Seq<char>, width: u16) -> Seq<Seq<char>> {
    wrapped(text::words(s), 0, Seq::empty(), Seq::empty(), prose_width(width))
}

impl Style {
    /// Puts prose on lines.
    pub fn wrap(&self, s: &str) -> (out: Vec<String>)
        ensures
            text::contents(out@) == wrap_of(s@, self.width),
    {
        let width: usize = if self.width < 27 {
            24
        } else {
            (self.width - 3) as usize
        };
        let words: Vec<&str> = text::split_words(s);
        let ghost w = text::views(words@);
        let mut out: Vec<String> = text::no_texts();
        let mut cur: String = String::new();
        let mut room: usize = width;
        let mut i: usize = 0;
        let ghost whole = wrap_of(s@, self.width);
        assert(cur@ =~= Seq::<char>::empty());
        while i < words.len()
            invariant
                i <= words@.len(),
                w == text::views(words@),
                width == prose_width(self.width),
                whole == wrap_of(s@, self.width),
                w == text::words(s@),
                room == if cur@.len() > width {
                    0
                } else {
                    width - cur@.len()
                },
                whole == wrapped(w, i as int, text::contents(out@), cur@, width as nat),
            decreases words@.len() - i,
        {
            let word: &str = words[i];
            assert(w[i as int] == word@);
            let n: usize = text::chars_of(word).len();
            if cur.as_str().is_empty() {
                cur = word.to_owned();
                room = if n > width {
                    0
                } else {
                    width - n
                };
            } else if room == 0 || n > room - 1 {
                out = text::with_text(out, cur.as_str());
                cur = word.to_owned();
                room = if n > width {
                    0
                } else {
                    width - n
                };
            } else {
                proof {
                    reveal_strlit(" ");
                }
                cur = cur.concat(" ").concat(word);
                room = room - 1 - n;
            }
            i = i + 1;
        }
        if !cur.as_str().is_empty() {
            out = text::with_text(out, cur.as_str());
        }
        out
    }

    /// The lead of a prompt's line: its first has the step's mark, the others the rail.
    pub open spec fn lead_of(self, first: bool) -> Seq<char> {
        if first {
            self.accent_of(STEP_ACTIVE@)
        } else {
            self.dim_of(BAR@)
        }
    }

    /// Lines behind their leads.
    pub open spec fn led(self, lines: Seq<Seq<char>>, k: int) -> Seq<char>
        decreases k,
    {
        if k <= 0 {
            Seq::empty()
        } else {
            self.led(lines, k - 1) + self.lead_of(k == 1) + "  "@ + lines[k - 1] + "\n"@
        }
    }

    /// Every line of a text wrapped on its own, so that a command keeps its line.
    pub open spec fn wrap_all(self, lines: Seq<Seq<char>>) -> Seq<Seq<char>>
        decreases lines.len(),
    {
        if lines.len() == 0 {
            Seq::empty()
        } else {
            self.wrap_all(lines.drop_last()) + wrap_of(lines.last(), self.width)
        }
    }

    /// A prompt's prose.
    pub open spec fn prose_of(self, s: Seq<char>) -> Seq<char> {
        let w = self.wrap_all(text::lines_of(s));
        self.led(w, w.len() as int)
    }

    fn wrap_lines(&self, s: &str) -> (out: Vec<String>)
        ensures
            text::contents(out@) == self.wrap_all(text::lines_of(s@)),
    {
        let lines: Vec<&str> = text::lines(s);
        let ghost l = text::views(lines@);
        let mut out: Vec<String> = text::no_texts();
        let mut i: usize = 0;
        assert(l.take(0) =~= Seq::<Seq<char>>::empty());
        while i < lines.len()
            invariant
                i <= lines@.len(),
                l == text::views(lines@),
                text::contents(out@) == self.wrap_all(l.take(i as int)),
            decreases lines@.len() - i,
        {
            proof {
                assert(l.take(i + 1).drop_last() =~= l.take(i as int));
                assert(l.take(i + 1).last() == lines@[i as int]@);
            }
            let ghost before = out@;
            let mut more: Vec<String> = self.wrap(lines[i]);
            let ghost added = more@;
            out.append(&mut more);
            assert(text::contents(out@) =~= text::contents(before) + text::contents(added));
            i = i + 1;
        }
        assert(l.take(i as int) =~= l);
        out
    }

    /// Sets a prompt's prose.
    pub fn prose(&self, s: &str) -> (out: String)
        ensures
            out@ == self.prose_of(s@),
    {
        let w: Vec<String> = self.wrap_lines(s);
        let ghost all = text::contents(w@);
        let mut out: String = String::new();
        let mut k: usize = 0;
        assert(out@ =~= self.led(all, 0));
        while k < w.len()
            invariant
                k <= w@.len(),
                all == text::contents(w@),
                out@ == self.led(all, k as int),
            decreases w@.len() - k,
        {
            assert(all[k as int] == w@[k as int]@);
            let lead: String = if k == 0 {
                self.accented(STEP_ACTIVE)
            } else {
                self.bar()
            };
            out = out.concat(lead.as_str()).concat("  ").concat(w[k].as_str()).concat("\n");
            k = k + 1;
        }
        assert(all.len() == w@.len());
        out
    }
}

/// The live line of a quiet run.
pub struct Progress {
    pub total: usize,
    /// Headings so far; each phase has one.
    pub done: usize,
    pub title: String,
    /// Rows of it on the screen.
    pub drawn: usize,
}

/// The filled cells of the bar.
pub open spec fn filled_of(done: nat, total: nat) -> nat {
    if total == 0 {
        0
    } else if done >= total {
        CELLS as nat
    } else {
        (CELLS * done) as nat / total
    }
}

fn filled(done: usize, total: usize) -> (n: usize)
    ensures
        n == filled_of(done as nat, total as nat),
        n <= CELLS,
{
    if total == 0 {
        return 0;
    }
    if done >= total {
        return CELLS;
    }
    proof {
        assert((14 * done) / (total as int) <= 14) by (nonlinear_arith)
            requires
                0 <= done < total,
        ;
    }
    ((CELLS as u128 * done as u128) / total as u128) as usize
}

/// The rail: how it is set off, and the live line while there is one.
pub struct Tui {
    pub style: Style,
    pub progress: Option<Progress>,
}

/// The live line.
pub open spec fn progress_line(style: Style, p: Progress) -> Seq<char> {
    let n = filled_of(p.done as nat, p.total as nat);
    style.dim_of(BAR@) + "  "@ + style.accent_of(STEP_ACTIVE@) + " "@ + style.dim_of(
        summary::repeated('▓', n) + summary::repeated('░', (CELLS - n) as nat),
    ) + " "@ + style.lens_of(
        text::decimal(p.done as nat) + "/"@ + text::decimal(p.total as nat) + "  "@ + p.title@,
    ) + "\n"@
}

/// The rows a live line takes.
pub open spec fn live_rows(style: Style, p: Progress) -> nat {
    text::lines_of(progress_line(style, p)).len()
}

/// A warning, printed to stay.
pub open spec fn warning_line(style: Style, msg: Seq<char>) -> Seq<char> {
    style.dim_of(BAR@) + "  "@ + style.mark_of("\x1b[33m"@) + " "@ + msg + "\n"@
}

/// A heading on the live line `p`: one more phase is counted, and the line `q` takes its place on
/// the screen.
pub open spec fn said(
    style: Style,
    p: Progress,
    msg: Seq<char>,
    q: Progress,
    ops: Seq<OpView>,
) -> bool {
    &&& q.total == p.total
    &&& q.done == if p.done < usize::MAX {
        p.done + 1
    } else {
        p.done as int
    }
    &&& q.title@ == msg
    &&& q.drawn == live_rows(style, q)
    &&& ops == lifted(Some(p)).push(OpView::Write(progress_line(style, q)))
}

/// A warning over the live line `p`: the line is lifted, the warning written, and the line painted
/// again below it.
pub open spec fn warned(
    style: Style,
    p: Progress,
    msg: Seq<char>,
    q: Progress,
    ops: Seq<OpView>,
) -> bool {
    &&& q.total == p.total
    &&& q.done == p.done
    &&& q.title@ == p.title@
    &&& q.drawn == live_rows(style, q)
    &&& ops == lifted(Some(p)).push(OpView::Write(warning_line(style, msg))).push(
        OpView::Write(progress_line(style, q)),
    )
}

impl Tui {
    pub fn new(style: Style) -> (t: Tui)
        ensures
            t.style == style,
            t.progress is None,
    {
        Tui { style, progress: None }
    }

    /// Goes down to one live line; nothing is echoed until [`Tui::end_progress`].
    pub fn begin_progress(&mut self, total: usize)
        ensures
            final(self).style == old(self).style,
            final(self).progress matches Some(p) && p.total == total && p.done == 0 && p.drawn == 0
                && p.title@ == ""@,
    {
        self.progress = Some(Progress { total, done: 0, title: "".to_owned(), drawn: 0 });
    }

    /// Takes the live line down, so that what follows starts on a clean row.
    pub fn end_progress(&mut self) -> (ops: Vec<TermOp>)
        ensures
            final(self).style == old(self).style,
            final(self).progress is None,
            op_views(ops@) == lifted(old(self).progress),
    {
        let mut ops: Vec<TermOp> = no_ops();
        match &self.progress {
            Some(p) => {
                if p.drawn > 0 {
                    put(&mut ops, TermOp::Clear(p.drawn));
                }
            },
            None => {},
        }
        self.progress = None;
        ops
    }

    fn repaint(&mut self, ops: &mut Vec<TermOp>)
        ensures
            final(self).style == old(self).style,
            match old(self).progress {
                None => final(self).progress is None && op_views(final(ops)@) == op_views(
                    old(ops)@,
                ),
                Some(p) => {
                    let line = progress_line(old(self).style, p);
                    &&& op_views(final(ops)@) == (op_views(old(ops)@) + lifted(
                        old(self).progress,
                    )).push(OpView::Write(line))
                    &&& final(self).progress matches Some(q) && q.total == p.total && q.done
                        == p.done && q.title@ == p.title@ && q.drawn == text::lines_of(line).len()
                },
            },
    {
        let p: &Progress = match &self.progress {
            Some(p) => p,
            None => {
                return;
            },
        };
        let n: usize = filled(p.done, p.total);
        let cells: String = repeat('▓', n).concat(repeat('░', CELLS - n).as_str());
        let count: String = text::decimal_u64(p.done as u64).concat("/").concat(
            text::decimal_u64(p.total as u64).as_str(),
        ).concat("  ").concat(p.title.as_str());
        let line: String = self.style.bar().concat("  ").concat(
            self.style.accented(STEP_ACTIVE).as_str(),
        ).concat(" ").concat(self.style.dim(cells.as_str()).as_str()).concat(" ").concat(
            self.style.highlight(count.as_str()).as_str(),
        ).concat("\n");
        let rows: usize = text::lines(line.as_str()).len();
        let ghost before = op_views(ops@);
        if p.drawn > 0 {
            put(ops, TermOp::Clear(p.drawn));
        }
        assert(op_views(ops@) =~= before + lifted(self.progress));
        put(ops, TermOp::Write(line));
        let total: usize = p.total;
        let done: usize = p.done;
        let title: String = p.title.clone();
        self.progress = Some(Progress { total, done, title, drawn: rows });
    }

    /// A heading. On the live line it counts a phase; the count stops at the largest number.
    pub fn say(&mut self, msg: &str) -> (ops: Vec<TermOp>)
        ensures
            final(self).style == old(self).style,
            match old(self).progress {
                None => final(self).progress is None && op_views(ops@)
                    == Seq::<OpView>::empty().push(
                    OpView::Write(old(self).style.dim_of(BAR@) + "\n"@),
                ).push(
                    OpView::Write(
                        old(self).style.accent_of(STEP_ACTIVE@) + "  "@ + old(self).style.lens_of(
                            msg@,
                        ) + "\n"@,
                    ),
                ),
                Some(p) => final(self).progress matches Some(q) && said(
                    old(self).style,
                    p,
                    msg@,
                    q,
                    op_views(ops@),
                ),
            },
    {
        let mut ops: Vec<TermOp> = no_ops();
        match &self.progress {
            Some(p) => {
                let done: usize = if p.done < usize::MAX {
                    p.done + 1
                } else {
                    p.done
                };
                let total: usize = p.total;
                let drawn: usize = p.drawn;
                self.progress = Some(Progress { total, done, title: msg.to_owned(), drawn });
                self.repaint(&mut ops);
                proof {
                    assert(Seq::<OpView>::empty() + lifted(old(self).progress) =~= lifted(
                        old(self).progress,
                    ));
                }
            },
            None => {
                put(&mut ops, TermOp::Write(self.style.bar().concat("\n")));
                put(
                    &mut ops,
                    TermOp::Write(
                        self.style.accented(STEP_ACTIVE).concat("  ").concat(
                            self.style.highlight(msg).as_str(),
                        ).concat("\n"),
                    ),
                );
            },
        }
        ops
    }

    fn unless_live(&self, t: String) -> (ops: Vec<TermOp>)
        ensures
            op_views(ops@) == self.printed(t@),
    {
        let mut ops: Vec<TermOp> = no_ops();
        if self.progress.is_none() {
            put(&mut ops, TermOp::Write(t));
        }
        ops
    }

    /// What is printed of a line: nothing while the live line is up.
    pub open spec fn printed(self, t: Seq<char>) -> Seq<OpView> {
        if self.progress is None {
            Seq::<OpView>::empty().push(OpView::Write(t))
        } else {
            Seq::empty()
        }
    }

    /// Something that is well.
    pub fn fine(&self, msg: &str) -> (ops: Vec<TermOp>)
        ensures
            op_views(ops@) == self.printed(
                self.style.dim_of(BAR@) + "  "@ + self.style.dim_of(STEP_DONE@) + " "@ + msg@
                    + "\n"@,
            ),
    {
        self.unless_live(
            self.style.bar().concat("  ").concat(self.style.dim(STEP_DONE).as_str()).concat(
                " ",
            ).concat(msg).concat("\n"),
        )
    }

    /// A command.
    pub fn plus(&self, cmd: &str) -> (ops: Vec<TermOp>)
        ensures
            op_views(ops@) == self.printed(
                self.style.dim_of(BAR@) + "    "@ + self.style.dim_of("+ "@ + cmd@) + "\n"@,
            ),
    {
        let shown: String = "+ ".to_owned().concat(cmd);
        self.unless_live(
            self.style.bar().concat("    ").concat(
                self.style.dim(shown.as_str()).as_str(),
            ).concat("\n"),
        )
    }

    pub fn detail(&self, msg: &str) -> (ops: Vec<TermOp>)
        ensures
            op_views(ops@) == self.printed(
                self.style.dim_of(BAR@) + "    "@ + self.style.dim_of(msg@) + "\n"@,
            ),
    {
        self.unless_live(
            self.style.bar().concat("    ").concat(self.style.dim(msg).as_str()).concat("\n"),
        )
    }

    pub fn line(&self, msg: &str) -> (ops: Vec<TermOp>)
        ensures
            op_views(ops@) == self.printed(self.style.dim_of(BAR@) + "  "@ + msg@ + "\n"@),
    {
        self.unless_live(self.style.bar().concat("  ").concat(msg).concat("\n"))
    }

    pub fn blank(&self) -> (ops: Vec<TermOp>)
        ensures
            op_views(ops@) == self.printed(self.style.dim_of(BAR@) + "\n"@),
    {
        self.unless_live(self.style.bar().concat("\n"))
    }

    /// A warning outlives the run: it is printed above the live line, never into it.
    pub fn warn(&mut self, msg: &str) -> (ops: Vec<TermOp>)
        ensures
            final(self).style == old(self).style,
            match old(self).progress {
                None => final(self).progress is None && op_views(ops@)
                    == Seq::<OpView>::empty().push(
                    OpView::Write(warning_line(old(self).style, msg@)),
                ),
                Some(p) => final(self).progress matches Some(q) && warned(
                    old(self).style,
                    p,
                    msg@,
                    q,
                    op_views(ops@),
                ),
            },
    {
        let mut ops: Vec<TermOp> = no_ops();
        let told: String = self.style.bar().concat("  ").concat(
            self.style.mark("\x1b[33m").as_str(),
        ).concat(" ").concat(msg).concat("\n");
        match &self.progress {
            Some(p) => {
                if p.drawn > 0 {
                    put(&mut ops, TermOp::Clear(p.drawn));
                }
                assert(op_views(ops@) =~= lifted(self.progress));
                let total: usize = p.total;
                let done: usize = p.done;
                let title: String = p.title.clone();
                self.progress = Some(Progress { total, done, title, drawn: 0 });
                put(&mut ops, TermOp::Write(told));
                let ghost now = op_views(ops@);
                self.repaint(&mut ops);
                assert(now + Seq::<OpView>::empty() =~= now);
                assert(told@ == warning_line(self.style, msg@));
            },
            None => {
                put(&mut ops, TermOp::Write(told));
            },
        }
        ops
    }

    /// The last lines of a run.
    pub fn outro(&self, lines: &Vec<String>) -> (ops: Vec<TermOp>)
        ensures
            op_views(ops@) == outro_of(self.style, text::contents(lines@)),
    {
        let ghost all = text::contents(lines@);
        let mut ops: Vec<TermOp> = no_ops();
        put(&mut ops, TermOp::Write(self.style.bar().concat("\n")));
        let mut i: usize = 0;
        assert(all.take(0) =~= Seq::<Seq<char>>::empty());
        while i < lines.len()
            invariant
                i <= lines@.len(),
                all == text::contents(lines@),
                op_views(ops@) == outro_of(self.style, all.take(i as int)),
            decreases lines@.len() - i,
        {
            proof {
                assert(all.take(i + 1).drop_last() =~= all.take(i as int));
                assert(all.take(i + 1).last() == lines@[i as int]@);
            }
            put(
                &mut ops,
                TermOp::Write(
                    self.style.dim("└").concat("  ").concat(lines[i].as_str()).concat("\n"),
                ),
            );
            i = i + 1;
        }
        assert(all.take(i as int) =~= all);
        ops
    }

    /// A run that failed.
    pub fn failure(&self, message: &str) -> (ops: Vec<TermOp>)
        ensures
            op_views(ops@) == failure_of(self.style, message@),
    {
        let mut ops: Vec<TermOp> = no_ops();
        put(&mut ops, TermOp::Write(self.style.bar().concat("\n")));
        put(
            &mut ops,
            TermOp::Write(
                self.style.mark("\x1b[31m").concat("  ").concat(message).concat("\n"),
            ),
        );
        ops
    }

    /// Takes the live line down and says why the run failed.
    pub fn die(&mut self, message: &str) -> (ops: Vec<TermOp>)
        ensures
            final(self).style == old(self).style,
            final(self).progress is None,
            op_views(ops@) == lifted(old(self).progress) + failure_of(old(self).style, message@),
    {
        let mut ops: Vec<TermOp> = self.end_progress();
        let ghost before = ops@;
        let mut more: Vec<TermOp> = self.failure(message);
        let ghost added = more@;
        ops.append(&mut more);
        assert(op_views(ops@) =~= op_views(before) + op_views(added));
        ops
    }

    /// The password question: what it says and offers. The first answer keeps the generated one,
    /// and so does backing out.
    pub fn web_password(&self, url: &str, read_cmd: &str) -> (q: Question)
        ensures
            q.prompt@ == "The web console ("@ + url@
                + ") asks for a password.\nOne is generated for you unless you set your own. Print it any time with:\n"@
                + read_cmd@,
            text::contents(q.options@) == Seq::<Seq<char>>::empty().push(
                "Use the generated password"@,
            ).push("Set my own now"@),
            q.initial == 0,
    {
        Question {
            prompt: "The web console (".to_owned().concat(url).concat(
                ") asks for a password.\nOne is generated for you unless you set your own. Print it any time with:\n",
            ).concat(read_cmd),
            options: text::with_text(
                text::with_text(text::no_texts(), "Use the generated password"),
                "Set my own now",
            ),
            initial: 0,
        }
    }

    /// The question of where the console listens. The cursor starts on what the box answers now,
    /// so the first key leaves it.
    pub fn web_bind(&self, ip: &str, current: &str) -> (q: Question)
        ensures
            q.prompt@
                == "Where should the web console be reachable?\nIt is how you pair devices and change every setting."@,
            text::contents(q.options@) == Seq::<Seq<char>>::empty().push(
                "This machine only (https://127.0.0.1:47992)"@,
            ).push("This local network (https://"@ + ip@ + ":47992)"@).push(
                "A specific address (e.g. a VPN interface)"@,
            ),
            q.initial == if current@ == LOOPBACK_BIND@ {
                0int
            } else if current@ == LAN_BIND@ {
                1
            } else {
                2
            },
    {
        let lan: String = "This local network (https://".to_owned().concat(ip).concat(":47992)");
        let initial: usize = if text::same(current, LOOPBACK_BIND) {
            0
        } else if text::same(current, LAN_BIND) {
            1
        } else {
            2
        };
        Question {
            prompt:
                "Where should the web console be reachable?\nIt is how you pair devices and change every setting.".to_owned(),
            options: text::with_text(
                text::with_text(
                    text::with_text(
                        text::no_texts(),
                        "This machine only (https://127.0.0.1:47992)",
                    ),
                    lan.as_str(),
                ),
                "A specific address (e.g. a VPN interface)",
            ),
            initial,
        }
    }
}

/// Taking the live line back.
pub open spec fn lifted(p: Option<Progress>) -> Seq<OpView> {
    match p {
        Some(p) if p.drawn > 0 => Seq::<OpView>::empty().push(OpView::Clear(p.drawn)),
        _ => Seq::empty(),
    }
}

/// The rows that a run of terminal calls adds to the screen.
pub open spec fn height(ops: Seq<OpView>) -> int
    decreases ops.len(),
{
    if ops.len() == 0 {
        0
    } else {
        height(ops.drop_last()) + match ops.last() {
            OpView::Clear(n) => -(n as int),
            OpView::Write(t) => text::lines_of(t).len() as int,
        }
    }
}

/// A call on a live line: a heading or a warning.
pub enum LiveCall {
    Heading(Seq<char>),
    Warning(Seq<char>),
}

/// A quiet run: the calls made, the line after each, and what each did to the terminal.
pub open spec fn quiet_run(
    style: Style,
    calls: Seq<LiveCall>,
    lines: Seq<Progress>,
    ops: Seq<Seq<OpView>>,
) -> bool {
    &&& lines.len() == calls.len() + 1
    &&& ops.len() == calls.len()
    &&& lines[0].drawn == 0
    &&& forall|i: int|
        0 <= i < calls.len() ==> match #[trigger] calls[i] {
            LiveCall::Heading(msg) => said(style, lines[i], msg, lines[i + 1], ops[i]),
            LiveCall::Warning(msg) => warned(style, lines[i], msg, lines[i + 1], ops[i]),
        }
}

/// The rows the warnings among the first `n` calls take.
pub open spec fn warning_rows(style: Style, calls: Seq<LiveCall>, n: int) -> int
    decreases n,
{
    if n <= 0 {
        0
    } else {
        warning_rows(style, calls, n - 1) + match calls[n - 1] {
            LiveCall::Heading(_) => 0,
            LiveCall::Warning(msg) => text::lines_of(warning_line(style, msg)).len() as int,
        }
    }
}

/// The rows the first `n` calls leave on the screen.
pub open spec fn run_rows(ops: Seq<Seq<OpView>>, n: int) -> int
    decreases n,
{
    if n <= 0 {
        0
    } else {
        run_rows(ops, n - 1) + height(ops[n - 1])
    }
}

proof fn lemma_run_rows(
    style: Style,
    calls: Seq<LiveCall>,
    lines: Seq<Progress>,
    ops: Seq<Seq<OpView>>,
    n: int,
)
    requires
        quiet_run(style, calls, lines, ops),
        0 <= n <= calls.len(),
    ensures
        run_rows(ops, n) == warning_rows(style, calls, n) + lines[n].drawn,
    decreases n,
{
    if n > 0 {
        lemma_run_rows(style, calls, lines, ops, n - 1);
        let p = lines[n - 1];
        let lift = lifted(Some(p));
        let q = OpView::Write(progress_line(style, lines[n]));
        assert(height(lift) == -(p.drawn as int)) by {
            reveal_with_fuel(height, 2);
            if p.drawn > 0 {
                assert(lift.drop_last() =~= Seq::<OpView>::empty());
            }
        }
        let rows = text::lines_of(progress_line(style, lines[n])).len();
        match calls[n - 1] {
            LiveCall::Heading(msg) => {
                assert(ops[n - 1] == lift.push(q));
                assert(lift.push(q).drop_last() =~= lift);
                assert(height(lift.push(q)) == height(lift) + rows);
            },
            LiveCall::Warning(msg) => {
                let w = OpView::Write(warning_line(style, msg));
                assert(ops[n - 1] == lift.push(w).push(q));
                assert(lift.push(w).push(q).drop_last() =~= lift.push(w));
                assert(lift.push(w).drop_last() =~= lift);
                assert(height(lift.push(w)) == height(lift) + text::lines_of(
                    warning_line(style, msg),
                ).len());
                assert(height(lift.push(w).push(q)) == height(lift.push(w)) + rows);
            },
        }
    }
}

/// There is never more than one live line, and ending the run takes down exactly that one: at any
/// point of a quiet run the screen holds the warnings and the line, and once the line is lifted
/// the warnings alone.
pub proof fn one_live_line(
    style: Style,
    calls: Seq<LiveCall>,
    lines: Seq<Progress>,
    ops: Seq<Seq<OpView>>,
)
    requires
        quiet_run(style, calls, lines, ops),
    ensures
        run_rows(ops, calls.len() as int) == warning_rows(style, calls, calls.len() as int)
            + lines.last().drawn,
        calls.len() > 0 ==> lines.last().drawn == live_rows(style, lines.last()),
        run_rows(ops, calls.len() as int) + height(lifted(Some(lines.last()))) == warning_rows(
            style,
            calls,
            calls.len() as int,
        ),
{
    let n = calls.len() as int;
    lemma_run_rows(style, calls, lines, ops, n);
    if n > 0 {
        let last = calls[n - 1];
        assert(lines.last() == lines[n]);
    }
    let lift = lifted(Some(lines.last()));
    reveal_with_fuel(height, 2);
    if lines.last().drawn > 0 {
        assert(lift.drop_last() =~= Seq::<OpView>::empty());
    }
}

pub open spec fn outro_of(style: Style, lines: Seq<Seq<char>>) -> Seq<OpView>
    decreases lines.len(),
{
    if lines.len() == 0 {
        Seq::<OpView>::empty().push(OpView::Write(style.dim_of(BAR@) + "\n"@))
    } else {
        outro_of(style, lines.drop_last()).push(
            OpView::Write(style.dim_of("└"@) + "  "@ + lines.last() + "\n"@),
        )
    }
}

pub open spec fn failure_of(style: Style, message: Seq<char>) -> Seq<OpView> {
    Seq::<OpView>::empty().push(OpView::Write(style.dim_of(BAR@) + "\n"@)).push(
        OpView::Write(style.mark_of("\x1b[31m"@) + "  "@ + message + "\n"@),
    )
}

/// A question with a list of answers.
pub struct Question {
    pub prompt: String,
    pub options: Vec<String>,
    pub initial: usize,
}

/// The answer to the password question: whether one is typed.
pub fn types_password(pick: Option<usize>) -> (r: bool)
    ensures
        r == (pick matches Some(n) && n != 0),
{
    match pick {
        Some(n) => n != 0,
        None => false,
    }
}

/// What the answer to the bind question asks for.
#[derive(Clone, Copy, Debug, PartialEq, Eq, Structural)]
pub enum BindAnswer {
    /// Backed out: what stands, stands.
    Keep,
    Loopback,
    Lan,
    /// An address is typed.
    Typed,
}

pub fn bind_answer(pick: Option<usize>) -> (a: BindAnswer)
    ensures
        a == match pick {
            None => BindAnswer::Keep,
            Some(n) => if n == 0 {
                BindAnswer::Loopback
            } else if n == 1 {
                BindAnswer::Lan
            } else {
                BindAnswer::Typed
            },
        },
{
    match pick {
        None => BindAnswer::Keep,
        Some(n) => if n == 0 {
            BindAnswer::Loopback
        } else if n == 1 {
            BindAnswer::Lan
        } else {
            BindAnswer::Typed
        },
    }
}

/// The settings list's keys.
pub open spec fn screen_key_of(k: TermKey) -> summary::Key {
    match k {
        TermKey::Up => summary::Key::Up,
        TermKey::Down => summary::Key::Down,
        TermKey::Enter => summary::Key::Enter,
        TermKey::Space => summary::Key::Enter,
        TermKey::Cancel => summary::Key::Cancel,
        TermKey::Char('k') => summary::Key::Up,
        TermKey::Char('j') => summary::Key::Down,
        TermKey::Char('q') => summary::Key::Cancel,
        _ => summary::Key::Ignored,
    }
}

pub fn screen_key(k: TermKey) -> (r: summary::Key)
    ensures
        r == screen_key_of(k),
{
    match k {
        TermKey::Up => summary::Key::Up,
        TermKey::Down => summary::Key::Down,
        TermKey::Enter => summary::Key::Enter,
        TermKey::Space => summary::Key::Enter,
        TermKey::Cancel => summary::Key::Cancel,
        TermKey::Char(c) => if c == 'k' {
            summary::Key::Up
        } else if c == 'j' {
            summary::Key::Down
        } else if c == 'q' {
            summary::Key::Cancel
        } else {
            summary::Key::Ignored
        },
        _ => summary::Key::Ignored,
    }
}

/// A list of answers being picked from.
#[derive(Clone, Copy, Debug, PartialEq, Eq, Structural)]
pub struct Choose {
    pub cursor: usize,
    pub count: usize,
}

/// What a key did to the list.
#[derive(Clone, Copy, Debug, PartialEq, Eq, Structural)]
pub enum Pick {
    Open,
    Taken(usize),
    BackedOut,
}

impl Choose {
    pub open spec fn wf(self) -> bool {
        self.cursor < self.count
    }

    /// A list that opens on an answer, or on its last one when there is no such answer.
    pub fn new(count: usize, initial: usize) -> (c: Choose)
        requires
            count > 0,
        ensures
            c.wf(),
            c.count == count,
            c.cursor == if initial < count {
                initial as int
            } else {
                count - 1
            },
    {
        Choose {
            count,
            cursor: if initial < count {
                initial
            } else {
                count - 1
            },
        }
    }

    /// Moves the cursor, takes the answer under it, or backs out. The cursor wraps.
    pub fn key(&mut self, k: TermKey) -> (p: Pick)
        requires
            old(self).wf(),
        ensures
            final(self).wf(),
            final(self).count == old(self).count,
            p == match screen_key_of(k) {
                summary::Key::Enter => Pick::Taken(old(self).cursor),
                summary::Key::Cancel => Pick::BackedOut,
                _ => Pick::Open,
            },
            final(self).cursor == match screen_key_of(k) {
                summary::Key::Up => if old(self).cursor == 0 {
                    old(self).count - 1
                } else {
                    old(self).cursor - 1
                },
                summary::Key::Down => if old(self).cursor + 1 == old(self).count {
                    0
                } else {
                    old(self).cursor + 1
                },
                _ => old(self).cursor as int,
            },
    {
        match screen_key(k) {
            summary::Key::Up => {
                self.cursor = if self.cursor == 0 {
                    self.count - 1
                } else {
                    self.cursor - 1
                };
                Pick::Open
            },
            summary::Key::Down => {
                self.cursor = if self.cursor == self.count - 1 {
                    0
                } else {
                    self.cursor + 1
                };
                Pick::Open
            },
            summary::Key::Enter => Pick::Taken(self.cursor),
            summary::Key::Cancel => Pick::BackedOut,
            summary::Key::Ignored => Pick::Open,
        }
    }
}

/// One option as a list shows it.
pub open spec fn option_line(style: Style, option: Seq<char>, on: bool) -> Seq<char> {
    style.dim_of(BAR@) + "  "@ + (if on {
        style.accent_of(RADIO_ON@)
    } else {
        style.dim_of(RADIO_OFF@)
    }) + " "@ + (if on {
        style.lens_of(option)
    } else {
        style.dim_of(option)
    }) + "\n"@
}

/// The first `n` options of a list.
pub open spec fn option_lines(style: Style, options: Seq<Seq<char>>, cursor: int, n: int) -> Seq<
    char,
>
    decreases n,
{
    if n <= 0 {
        Seq::empty()
    } else {
        option_lines(style, options, cursor, n - 1) + option_line(
            style,
            options[n - 1],
            n - 1 == cursor,
        )
    }
}

/// A list's frame.
pub open spec fn choose_frame_of(
    style: Style,
    prompt: Seq<char>,
    options: Seq<Seq<char>>,
    cursor: int,
) -> Seq<char> {
    style.dim_of(BAR@) + "\n"@ + style.prose_of(prompt) + option_lines(
        style,
        options,
        cursor,
        options.len() as int,
    ) + style.dim_of(BAR@) + "\n"@
}

/// Draws a list of answers.
pub fn choose_frame(style: &Style, prompt: &str, options: &Vec<String>, cursor: usize) -> (s:
    String)
    ensures
        s@ == choose_frame_of(*style, prompt@, text::contents(options@), cursor as int),
{
    let ghost all = text::contents(options@);
    let mut lines: String = String::new();
    let mut i: usize = 0;
    assert(lines@ =~= option_lines(*style, all, cursor as int, 0));
    while i < options.len()
        invariant
            i <= options@.len(),
            all == text::contents(options@),
            lines@ == option_lines(*style, all, cursor as int, i as int),
        decreases options@.len() - i,
    {
        assert(all[i as int] == options@[i as int]@);
        let on: bool = i == cursor;
        let glyph: String = if on {
            style.accented(RADIO_ON)
        } else {
            style.dim(RADIO_OFF)
        };
        let shown: String = if on {
            style.highlight(options[i].as_str())
        } else {
            style.dim(options[i].as_str())
        };
        let line: String = style.bar().concat("  ").concat(glyph.as_str()).concat(" ").concat(
            shown.as_str(),
        ).concat("\n");
        lines = lines.concat(line.as_str());
        i = i + 1;
    }
    assert(all.len() == options@.len());
    style.bar().concat("\n").concat(style.prose(prompt).as_str()).concat(lines.as_str()).concat(
        style.bar().as_str(),
    ).concat("\n")
}

/// A line being typed.
pub struct AskLine {
    pub typed: String,
}

/// What a key did to a line.
#[derive(Clone, Copy, Debug, PartialEq, Eq, Structural)]
pub enum Typing {
    Open,
    Taken,
    BackedOut,
}

/// A character that a line takes: printable ASCII without what an environment file would unquote.
pub open spec fn typeable(c: char) -> bool {
    '!' <= c <= '~' && c != '"' && c != '\'' && c != '\\' && c != '`' && c != '$'
}

/// Every character of a text is one that a line takes.
pub open spec fn all_typeable(s: Seq<char>) -> bool {
    forall|i: int| 0 <= i < s.len() ==> typeable(#[trigger] s[i])
}

/// A line once a key was typed.
pub open spec fn typed_after(typed: Seq<char>, k: TermKey) -> Seq<char> {
    match k {
        TermKey::Char(c) => if typeable(c) {
            typed.push(c)
        } else {
            typed
        },
        TermKey::Backspace => if typed.len() > 0 {
            typed.drop_last()
        } else {
            typed
        },
        _ => typed,
    }
}

/// What a key does to a line that would be taken or not.
pub open spec fn typing_of(k: TermKey, accepted: bool) -> Typing {
    match k {
        TermKey::Enter => if accepted {
            Typing::Taken
        } else {
            Typing::Open
        },
        TermKey::Cancel => Typing::BackedOut,
        _ => Typing::Open,
    }
}

impl AskLine {
    /// Only what a line takes was typed.
    pub open spec fn wf(self) -> bool {
        all_typeable(self.typed@)
    }

    pub fn new() -> (a: AskLine)
        ensures
            a.typed@ == Seq::<char>::empty(),
            a.wf(),
    {
        AskLine { typed: String::new() }
    }

    /// A key: a character is typed or not, the last one is taken back, an accepted line is taken,
    /// and backing out keeps the default.
    pub fn key(&mut self, k: TermKey, accepted: bool) -> (t: Typing)
        ensures
            t == typing_of(k, accepted),
            final(self).typed@ == typed_after(old(self).typed@, k),
            old(self).wf() ==> final(self).wf(),
    {
        match k {
            TermKey::Char(c) => {
                if '!' <= c && c <= '~' && c != '"' && c != '\'' && c != '\\' && c != '`' && c
                    != '$' {
                    self.typed.push(c);
                }
                Typing::Open
            },
            TermKey::Backspace => {
                let mut v: Vec<char> = text::chars_of(self.typed.as_str());
                if v.len() > 0 {
                    let ghost all = v@;
                    v.pop();
                    assert(v@ =~= all.drop_last());
                    self.typed = text::string_of(&v);
                }
                Typing::Open
            },
            TermKey::Enter => if accepted {
                Typing::Taken
            } else {
                Typing::Open
            },
            TermKey::Cancel => Typing::BackedOut,
            _ => Typing::Open,
        }
    }

    /// A key on the password's line, which is taken only when it is long enough.
    pub fn secret_key(&mut self, k: TermKey) -> (t: Typing)
        ensures
            t == typing_of(k, old(self).typed@.len() >= MIN_PASSWORD),
            t == Typing::Taken ==> old(self).typed@.len() >= MIN_PASSWORD,
            final(self).typed@ == typed_after(old(self).typed@, k),
            old(self).wf() ==> final(self).wf(),
    {
        let accepted: bool = self.long_enough();
        self.key(k, accepted)
    }

    /// The line is long enough for a password.
    pub fn long_enough(&self) -> (r: bool)
        ensures
            r == (self.typed@.len() >= MIN_PASSWORD),
    {
        text::chars_of(self.typed.as_str()).len() >= MIN_PASSWORD
    }
}

/// A typed line's frame: the hint follows whether the line would be taken.
pub open spec fn ask_frame_of(
    style: Style,
    prose: Seq<char>,
    typed: Seq<char>,
    hint: Seq<char>,
) -> Seq<char> {
    style.dim_of(BAR@) + "\n"@ + style.prose_of(prose) + style.dim_of(BAR@) + "  "@
        + style.accent_of(CURSOR@) + " "@ + style.lens_of(typed) + "\n"@ + style.dim_of(BAR@) + "  "@
        + style.dim_of(hint) + "\n"@ + style.dim_of(BAR@) + "\n"@
}

/// Draws a line being typed.
pub fn ask_frame(
    style: &Style,
    prose: &str,
    typed: &str,
    accepted: bool,
    hint_short: &str,
    hint_ok: &str,
) -> (s: String)
    ensures
        s@ == ask_frame_of(
            *style,
            prose@,
            typed@,
            if accepted {
                hint_ok@
            } else {
                hint_short@
            },
        ),
{
    let hint: &str = if accepted {
        hint_ok
    } else {
        hint_short
    };
    style.bar().concat("\n").concat(style.prose(prose).as_str()).concat(
        style.bar().as_str(),
    ).concat("  ").concat(style.accented(CURSOR).as_str()).concat(" ").concat(
        style.highlight(typed).as_str(),
    ).concat("\n").concat(style.bar().as_str()).concat("  ").concat(
        style.dim(hint).as_str(),
    ).concat("\n").concat(style.bar().as_str()).concat("\n")
}

/// The password's two prompts: the list of answers, then the line.
pub enum PasswordAsk {
    List(Choose),
    Line(AskLine),
}

/// Which prompt of the password is up, and what it holds.
#[verifier::ext_equal]
pub enum PasswordView {
    List { cursor: usize },
    Line { typed: Seq<char> },
}

/// What a key did to the password's prompts.
pub enum PasswordAnswer {
    Open,
    /// One is generated.
    Generated,
    Own(String),
}

#[verifier::ext_equal]
pub enum PasswordAnswerView {
    Open,
    Generated,
    Own(Seq<char>),
}

impl View for PasswordAsk {
    type V = PasswordView;

    open spec fn view(&self) -> PasswordView {
        match *self {
            PasswordAsk::List(c) => PasswordView::List { cursor: c.cursor },
            PasswordAsk::Line(l) => PasswordView::Line { typed: l.typed@ },
        }
    }
}

impl View for PasswordAnswer {
    type V = PasswordAnswerView;

    open spec fn view(&self) -> PasswordAnswerView {
        match *self {
            PasswordAnswer::Open => PasswordAnswerView::Open,
            PasswordAnswer::Generated => PasswordAnswerView::Generated,
            PasswordAnswer::Own(p) => PasswordAnswerView::Own(p@),
        }
    }
}

/// What a key does to the password's prompts. The first answer of the list, and backing out of
/// either prompt, keep the generated one; the second opens the line.
pub open spec fn password_step(v: PasswordView, k: TermKey) -> (PasswordView, PasswordAnswerView) {
    match v {
        PasswordView::List { cursor } => match screen_key_of(k) {
            summary::Key::Enter => if cursor == 0 {
                (v, PasswordAnswerView::Generated)
            } else {
                (PasswordView::Line { typed: Seq::empty() }, PasswordAnswerView::Open)
            },
            summary::Key::Cancel => (v, PasswordAnswerView::Generated),
            summary::Key::Up | summary::Key::Down => (
                PasswordView::List {
                    cursor: if cursor == 0 {
                        1
                    } else {
                        0
                    },
                },
                PasswordAnswerView::Open,
            ),
            _ => (v, PasswordAnswerView::Open),
        },
        PasswordView::Line { typed } => (
            PasswordView::Line { typed: typed_after(typed, k) },
            match typing_of(k, typed.len() >= MIN_PASSWORD) {
                Typing::Open => PasswordAnswerView::Open,
                Typing::Taken => PasswordAnswerView::Own(typed),
                Typing::BackedOut => PasswordAnswerView::Generated,
            },
        ),
    }
}

impl PasswordAsk {
    /// The list has its two answers, and only what a line takes was typed.
    pub open spec fn wf(self) -> bool {
        match self {
            PasswordAsk::List(c) => c.wf() && c.count == 2,
            PasswordAsk::Line(l) => l.wf(),
        }
    }

    /// The list, on its first answer.
    pub fn new() -> (a: PasswordAsk)
        ensures
            a.wf(),
            a@ == (PasswordView::List { cursor: 0 }),
    {
        PasswordAsk::List(Choose::new(2, 0))
    }

    /// A key. A password is taken only when it is long enough, and holds only what a line takes.
    pub fn key(&mut self, k: TermKey) -> (a: PasswordAnswer)
        requires
            old(self).wf(),
        ensures
            final(self).wf(),
            (final(self)@, a@) == password_step(old(self)@, k),
            a matches PasswordAnswer::Own(p) ==> p@.len() >= MIN_PASSWORD && all_typeable(p@),
    {
        match self {
            PasswordAsk::List(c) => {
                let mut list: Choose = *c;
                let pick: Pick = list.key(k);
                match pick {
                    Pick::Open => {
                        *self = PasswordAsk::List(list);
                        PasswordAnswer::Open
                    },
                    Pick::Taken(i) => {
                        if types_password(Some(i)) {
                            *self = PasswordAsk::Line(AskLine::new());
                            PasswordAnswer::Open
                        } else {
                            PasswordAnswer::Generated
                        }
                    },
                    Pick::BackedOut => PasswordAnswer::Generated,
                }
            },
            PasswordAsk::Line(l) => {
                let mut line: AskLine = AskLine { typed: l.typed.clone() };
                let typing: Typing = line.secret_key(k);
                let typed: String = line.typed.clone();
                *self = PasswordAsk::Line(line);
                match typing {
                    Typing::Open => PasswordAnswer::Open,
                    Typing::Taken => PasswordAnswer::Own(typed),
                    Typing::BackedOut => PasswordAnswer::Generated,
                }
            },
        }
    }
}

/// The prompts after the first `n` keys.
pub open spec fn password_at(keys: Seq<TermKey>, n: int) -> PasswordView
    decreases n,
{
    if n <= 0 {
        PasswordView::List { cursor: 0 }
    } else {
        password_step(password_at(keys, n - 1), keys[n - 1]).0
    }
}

/// Whatever keys are pressed, a password that is taken has at least [`MIN_PASSWORD`] characters,
/// none of which an environment file would change; and one is generated exactly when the first
/// answer of the list is taken or a prompt is backed out of.
pub proof fn a_typed_password_is_long_and_plain(keys: Seq<TermKey>, n: int)
    requires
        0 <= n < keys.len(),
    ensures
        password_at(keys, n) matches PasswordView::Line { typed } ==> all_typeable(typed),
        password_step(password_at(keys, n), keys[n]).1 matches PasswordAnswerView::Own(p)
            ==> p.len() >= MIN_PASSWORD && all_typeable(p),
        password_step(password_at(keys, n), keys[n]).1 == PasswordAnswerView::Generated <==> match password_at(
            keys,
            n,
        ) {
            PasswordView::List { cursor } => screen_key_of(keys[n]) == summary::Key::Cancel || (
            screen_key_of(keys[n]) == summary::Key::Enter && cursor == 0),
            PasswordView::Line { .. } => keys[n] == TermKey::Cancel,
        },
    decreases n,
{
    if n > 0 {
        a_typed_password_is_long_and_plain(keys, n - 1);
    }
}

/// The hint while a password is too short.
pub fn password_hint() -> (s: String)
    ensures
        s@ == "at least "@ + text::decimal(MIN_PASSWORD as nat)
            + " characters · Esc generates one instead"@,
{
    "at least ".to_owned().concat(text::decimal_u64(MIN_PASSWORD as u64).as_str()).concat(
        " characters · Esc generates one instead",
    )
}

/// What a row's editor offers and where it opens.
pub open spec fn editor_options(field: Field) -> Seq<Seq<char>> {
    match field {
        Field::Channel => Seq::<Seq<char>>::empty().push("stable"@).push("canary"@),
        Field::Components => Seq::<Seq<char>>::empty().push("The PC I stream from (host)"@).push(
            "Both (host + client)"@,
        ).push("The device I play on (client)"@),
        _ => Seq::<Seq<char>>::empty().push("yes"@).push("no"@),
    }
}

/// Whether a row is on; the rows of Omarchy open as off.
pub open spec fn row_on(screen: Screen, field: Field) -> bool {
    match field {
        Field::Group => screen.choices.toggles.punktfunk_group,
        Field::Gamestream => screen.choices.toggles.gamestream,
        Field::Clipboard => screen.choices.toggles.clipboard,
        Field::Linger => screen.choices.toggles.linger,
        Field::Start => screen.choices.toggles.start,
        _ => false,
    }
}

pub open spec fn editor_initial(screen: Screen, field: Field) -> int {
    match field {
        Field::Channel => if screen.choices.channel == Channel::Canary {
            1
        } else {
            0
        },
        Field::Components => if screen.choices.components.host && !screen.choices.components.client {
            0
        } else if screen.choices.components.host {
            1
        } else {
            2
        },
        _ => if row_on(screen, field) {
            0
        } else {
            1
        },
    }
}

/// A row's editor.
pub fn editor(screen: &Screen, field: Field) -> (q: Question)
    ensures
        q.prompt@ == summary::why_of(field),
        text::contents(q.options@) == editor_options(field),
        q.initial == editor_initial(*screen, field),
        q.initial < q.options@.len(),
{
    let prompt: String = Screen::why(field).to_owned();
    let (options, initial): (Vec<String>, usize) = match field {
        Field::Channel => (
            text::with_text(text::with_text(text::no_texts(), "stable"), "canary"),
            if screen.choices.channel == Channel::Canary {
                1
            } else {
                0
            },
        ),
        Field::Components => (
            text::with_text(
                text::with_text(
                    text::with_text(text::no_texts(), "The PC I stream from (host)"),
                    "Both (host + client)",
                ),
                "The device I play on (client)",
            ),
            if screen.choices.components.host && !screen.choices.components.client {
                0
            } else if screen.choices.components.host {
                1
            } else {
                2
            },
        ),
        _ => {
            let on: bool = match field {
                Field::Group => screen.choices.toggles.punktfunk_group,
                Field::Gamestream => screen.choices.toggles.gamestream,
                Field::Clipboard => screen.choices.toggles.clipboard,
                Field::Linger => screen.choices.toggles.linger,
                Field::Start => screen.choices.toggles.start,
                _ => false,
            };
            (
                text::with_text(text::with_text(text::no_texts(), "yes"), "no"),
                if on {
                    0
                } else {
                    1
                },
            )
        },
    };
    assert(text::contents(options@).len() == options@.len());
    Question { prompt, options, initial }
}

/// The choices once an editor was answered.
pub open spec fn answered(screen: Screen, field: Field, n: usize) -> Choices {
    let c = screen.choices;
    match field {
        Field::Channel => {
            let channel = if n == 0 {
                Channel::Stable
            } else {
                Channel::Canary
            };
            Choices {
                channel,
                switch_from: match screen.facts.current_channel {
                    Some(x) if x != channel => Some(x),
                    _ => None,
                },
                ..c
            }
        },
        Field::Components => Choices {
            components: (Components { host: n != 2, client: n != 0 }),
            ..c
        },
        _ => summary::with_bool(c, field, n == 0),
    }
}

/// Puts an editor's answer on the screen; backing out changes nothing.
pub fn answer_edit(screen: &mut Screen, field: Field, pick: Option<usize>)
    requires
        old(screen).wf(),
    ensures
        final(screen).wf(),
        final(screen).facts == old(screen).facts,
        pick is None ==> *final(screen) == *old(screen),
        pick matches Some(n) ==> final(screen).choices == answered(*old(screen), field, n),
        field != Field::Components ==> final(screen).items == old(screen).items
            && final(screen).cursor == old(screen).cursor,
        final(screen).items@ == summary::items_of(
            final(screen).facts,
            final(screen).choices.components.host,
        ),
        final(screen).cursor == if old(screen).cursor < final(screen).items@.len() {
            old(screen).cursor as int
        } else {
            final(screen).items@.len() - 1
        },
{
    match pick {
        None => {},
        Some(n) => {
            if field == Field::Channel {
                screen.set_channel(
                    if n == 0 {
                        Channel::Stable
                    } else {
                        Channel::Canary
                    },
                );
            } else if field == Field::Components {
                screen.set_components(n != 2, n != 0);
            } else {
                screen.set_bool(field, n == 0);
            }
        },
    }
}

/// An item of the settings list as it is shown.
pub open spec fn item_lines(style: Style, screen: Screen, k: int, rule: Seq<char>) -> Seq<char> {
    let on = k == screen.cursor;
    let bar = style.dim_of(BAR@);
    let mark = if on {
        style.accent_of(CURSOR@)
    } else {
        " "@
    };
    match screen.items@[k] {
        Item::Row(f) => {
            let label = summary::padded(summary::label_of(f), 25);
            let value = summary::value_of(screen.choices, f);
            bar + "  "@ + mark + " "@ + (if on {
                style.lens_of(label) + value
            } else {
                label + style.dim_of(value)
            }) + "\n"@
        },
        Item::Go => bar + "  "@ + mark + " "@ + style.lens_of(
            if screen.facts.is_complete() {
                "Apply these changes"@
            } else {
                "Install now with these settings"@
            },
        ) + "\n"@ + bar + "  "@ + rule + "\n"@,
        Item::Uninstall => bar + "  "@ + mark + " "@ + style.dim_of(
            "Uninstall — remove the packages and the repo"@,
        ) + "\n"@,
    }
}

/// The first `n` items.
pub open spec fn items_text(style: Style, screen: Screen, n: int, rule: Seq<char>) -> Seq<char>
    decreases n,
{
    if n <= 0 {
        Seq::empty()
    } else {
        items_text(style, screen, n - 1, rule) + item_lines(style, screen, n - 1, rule)
    }
}

/// The columns of the rule: it gives way to a narrow terminal.
pub open spec fn rule_cols(width: u16) -> nat {
    if width < 6 {
        0
    } else if width - 6 > 58 {
        58
    } else {
        (width - 6) as nat
    }
}

/// The settings list's frame. `mark` is what is drawn above it.
pub open spec fn frame_of(style: Style, screen: Screen, mark: Seq<char>) -> Seq<char> {
    let bar = style.dim_of(BAR@);
    let rule = style.dim_of(summary::repeated('─', rule_cols(style.width)));
    mark + bar + "\n"@ + style.accent_of(STEP_ACTIVE@) + "  "@ + style.lens_of(
        screen.title_text(),
    ) + "\n"@ + bar + "  "@ + style.dim_of(screen.facts.docs_page@) + "\n"@ + bar + "\n"@
        + items_text(style, screen, screen.items@.len() as int, rule) + bar + "\n"@ + bar + "  "@
        + style.dim_of("↑↓ move · Enter select/edit · q quit — nothing runs until you confirm"@)
        + "\n"@
}

fn item_text(style: &Style, screen: &Screen, k: usize, rule: &str) -> (s: String)
    requires
        k < screen.items@.len(),
    ensures
        s@ == item_lines(*style, *screen, k as int, rule@),
{
    let on: bool = k == screen.cursor;
    let bar: String = style.bar();
    let mark: String = if on {
        style.accented(CURSOR)
    } else {
        " ".to_owned()
    };
    let head: String = bar.clone().concat("  ").concat(mark.as_str()).concat(" ");
    match screen.items[k] {
        Item::Row(f) => {
            let label: String = pad(Screen::label(f), 25);
            let value: String = screen.value(f);
            let shown: String = if on {
                style.highlight(label.as_str()).concat(value.as_str())
            } else {
                label.concat(style.dim(value.as_str()).as_str())
            };
            head.concat(shown.as_str()).concat("\n")
        },
        Item::Go => {
            let label: &str = if screen.manage_mode() {
                "Apply these changes"
            } else {
                "Install now with these settings"
            };
            head.concat(style.highlight(label).as_str()).concat("\n").concat(
                bar.as_str(),
            ).concat("  ").concat(rule).concat("\n")
        },
        Item::Uninstall => head.concat(
            style.dim("Uninstall — remove the packages and the repo").as_str(),
        ).concat("\n"),
    }
}

/// Draws the settings list.
pub fn frame(style: &Style, screen: &Screen, mark: &str) -> (s: String)
    ensures
        s@ == frame_of(*style, *screen, mark@),
{
    let bar: String = style.bar();
    let cols: usize = if style.width < 6 {
        0
    } else if style.width - 6 > 58 {
        58
    } else {
        (style.width - 6) as usize
    };
    let rule: String = style.dim(repeat('─', cols).as_str());
    let mut items: String = String::new();
    let mut k: usize = 0;
    assert(items@ =~= items_text(*style, *screen, 0, rule@));
    while k < screen.items.len()
        invariant
            k <= screen.items@.len(),
            items@ == items_text(*style, *screen, k as int, rule@),
        decreases screen.items@.len() - k,
    {
        items = items.concat(item_text(style, screen, k, rule.as_str()).as_str());
        k = k + 1;
    }
    mark.to_owned().concat(bar.as_str()).concat("\n").concat(
        style.accented(STEP_ACTIVE).as_str(),
    ).concat("  ").concat(style.highlight(screen.title().as_str()).as_str()).concat("\n").concat(
        bar.as_str(),
    ).concat("  ").concat(style.dim(screen.facts.docs_page.as_str()).as_str()).concat("\n").concat(
        bar.as_str(),
    ).concat("\n").concat(items.as_str()).concat(bar.as_str()).concat("\n").concat(
        bar.as_str(),
    ).concat("  ").concat(
        style.dim("↑↓ move · Enter select/edit · q quit — nothing runs until you confirm").as_str(),
    ).concat("\n")
}

/// The action a step of the settings list leads to.
pub fn action_of(step: Step) -> (a: Option<Action>)
    ensures
        a == match step {
            Step::Run(x) => Some(x),
            _ => None,
        },
{
    match step {
        Step::Run(a) => Some(a),
        _ => None,
    }
}

/// A cut line never takes more columns than there are, so taking a frame back by its rows takes
/// all of it back. The reset itself takes none.
pub proof fn a_fitted_line_fits(s: Seq<char>, cols: nat, width: nat, reset: Seq<char>)
    requires
        cols <= width,
        columns(reset) == 0,
    ensures
        columns(fit_line(s, cols, width, reset)) + cols <= width,
    decreases s.len(),
{
    if s.len() == 0 {
    } else if s[0] == '\x1b' {
        lemma_escape(s, 1);
        let n = escape_len(s, 1);
        let rest = fit_line(s.skip(n), cols, width, reset);
        a_fitted_line_fits(s.skip(n), cols, width, reset);
        if n == s.len() {
            assert(s.skip(n) =~= Seq::<char>::empty());
        }
        lemma_escape_columns(s, n, rest);
    } else if cols == width {
    } else {
        a_fitted_line_fits(s.skip(1), cols + 1, width, reset);
        let rest = fit_line(s.skip(1), cols + 1, width, reset);
        let whole = seq![s[0]] + rest;
        assert(whole[0] == s[0]);
        assert(whole.skip(1) =~= rest);
    }
}

/// A whole escape takes no column; one that the line ends in may swallow what follows.
proof fn lemma_escape_columns(s: Seq<char>, n: int, rest: Seq<char>)
    requires
        s.len() > 0,
        s[0] == '\x1b',
        n == escape_len(s, 1),
        rest == Seq::<char>::empty() || (n >= 2 && is_letter(s[n - 1])),
    ensures
        columns(s.take(n) + rest) == columns(rest),
{
    lemma_escape(s, 1);
    let whole = s.take(n) + rest;
    assert(whole[0] == '\x1b');
    if rest =~= Seq::<char>::empty() {
        assert(whole =~= s.take(n));
        lemma_escape_within(s, whole, n, 1);
        assert(whole.skip(escape_len(whole, 1)) =~= rest);
    } else {
        lemma_escape_within(s, whole, n, 1);
        assert(whole.skip(n) =~= rest);
    }
}

proof fn lemma_escape_within(s: Seq<char>, whole: Seq<char>, n: int, k: int)
    requires
        1 <= k <= n <= s.len(),
        n <= whole.len(),
        n == escape_len(s, k),
        forall|i: int| 0 <= i < n ==> whole[i] == s[i],
        whole.len() == n || is_letter(s[n - 1]),
        k < n || whole.len() == n,
    ensures
        escape_len(whole, k) == n,
    decreases n - k,
{
    if k < n && !is_letter(s[k]) {
        lemma_escape(s, k + 1);
        if k + 1 < n || whole.len() == n {
            lemma_escape_within(s, whole, n, k + 1);
        } else {
            assert(escape_len(s, k + 1) == n);
            assert(is_letter(s[n - 1]));
        }
    }
}

/// Without colours a dimmed text is the text; with them the sequences stand around it and nothing
/// of it is lost. The rail is a bar.
pub proof fn a_style_stands_around_the_text(
    style: &Style,
    t: &str,
    d: String,
    a: String,
    h: String,
    b: String,
)
    requires
        call_ensures(Style::dim, (style, t), d),
        call_ensures(Style::accented, (style, t), a),
        call_ensures(Style::highlight, (style, t), h),
        call_ensures(Style::bar, (style,), b),
    ensures
        !style.colors ==> d@ == t@ && b@ == "│"@,
        style.colors ==> d@ == "\x1b[2m"@ + t@ + "\x1b[0m"@ && b@ == "\x1b[2m"@ + "│"@
            + "\x1b[0m"@,
        a@ == style.accent@ + t@ + style.reset@,
        h@ == style.lens@ + t@ + style.reset@,
{
}

/// One line that no feed ends.
pub open spec fn one_line(s: Seq<char>) -> bool {
    s.len() > 0 && !s.contains('\n')
}

proof fn lemma_one_line(s: Seq<char>)
    requires
        one_line(s),
    ensures
        text::lines_of(s) == seq![s],
{
    text::lemma_next_cut(s, Sep::Is('\n'), 0);
    let i = text::next_cut(s, Sep::Is('\n'), 0);
    if i < s.len() {
        assert(s.contains(s[i]));
    }
    assert(s.subrange(0, s.len() as int) =~= s);
    let p = text::parts(s, Sep::Is('\n'));
    assert(p =~= seq![s]);
    assert(text::lines_of(s) =~= seq![s]);
}

proof fn lemma_plain_fit(s: Seq<char>, cols: nat, width: nat, reset: Seq<char>)
    requires
        cols <= width,
        !s.contains('\x1b'),
    ensures
        fit_line(s, cols, width, reset) == if s.len() <= width - cols {
            s
        } else {
            s.take(width - cols) + reset
        },
    decreases s.len(),
{
    if s.len() > 0 {
        assert(s.contains(s[0]));
        let t = s.skip(1);
        if cols == width {
            assert(s.take(0) + reset =~= reset);
        } else {
            if t.contains('\x1b') {
                let k = choose|k: int| 0 <= k < t.len() && t[k] == '\x1b';
                assert(s[k + 1] == '\x1b');
                assert(s.contains(s[k + 1]));
            }
            lemma_plain_fit(t, cols + 1, width, reset);
            if s.len() <= width - cols {
                assert(seq![s[0]] + t =~= s);
            } else {
                assert(seq![s[0]] + (t.take(width - cols - 1) + reset) =~= s.take(width - cols)
                    + reset);
            }
        }
    } else {
        assert(fit_line(s, cols, width, reset) =~= s);
    }
}

proof fn lemma_escape_is(e: Seq<char>, t: Seq<char>, k: int)
    requires
        1 <= k < e.len(),
        is_letter(e.last()),
        forall|i: int| k <= i < e.len() - 1 ==> !is_letter(#[trigger] e[i]),
    ensures
        escape_len(e + t, k) == e.len(),
    decreases e.len() - k,
{
    assert((e + t)[k] == e[k]);
    if k < e.len() - 1 {
        lemma_escape_is(e, t, k + 1);
    } else {
        assert(e[k] == e.last());
    }
}

/// A line of a frame is cut at the columns of the terminal, of which there are at least twenty,
/// and reset there; one that fits is left as it is. A sequence before it takes no column.
pub proof fn a_frame_is_cut_to_the_terminal(
    style: &Style,
    frame: &str,
    s: String,
    e: Seq<char>,
    t: Seq<char>,
)
    requires
        call_ensures(Style::fit, (style, frame), s),
        frame@ == e + t,
        one_line(frame@),
        e.len() == 0 || (e.len() >= 2 && e[0] == '\x1b' && is_letter(e.last()) && (forall|i: int|
            1 <= i < e.len() - 1 ==> !is_letter(#[trigger] e[i]))),
        !t.contains('\x1b'),
    ensures
        ({
            let width = if style.width < 20 {
                20int
            } else {
                style.width as int
            };
            &&& t.len() <= width ==> s@ == e + t + seq!['\n']
            &&& t.len() > width ==> s@ == e + t.take(width) + style.reset@ + seq!['\n']
        }),
{
    reveal_strlit("\n");
    assert("\n"@ =~= seq!['\n']);
    let width = frame_width(style.width);
    let reset = style.reset@;
    let f = frame@;
    lemma_one_line(f);
    let l = seq![f];
    assert(l.drop_last() =~= Seq::<Seq<char>>::empty());
    assert(fit_lines(Seq::<Seq<char>>::empty(), width, reset) =~= Seq::<char>::empty());
    lemma_plain_fit(t, 0, width, reset);
    if e.len() == 0 {
        assert(f =~= t);
        assert(e + t =~= t);
        if t.len() > width {
            assert(s@ =~= e + t.take(width as int) + style.reset@ + seq!['\n']);
        } else {
            assert(s@ =~= e + t + seq!['\n']);
        }
    } else {
        lemma_escape_is(e, t, 1);
        assert(f[0] == e[0]);
        assert(f.take(e.len() as int) =~= e);
        assert(f.skip(e.len() as int) =~= t);
        assert(fit_line(f, 0, width, reset) == e + fit_line(t, 0, width, reset));
        if t.len() > width {
            assert(s@ =~= e + t.take(width as int) + style.reset@ + seq!['\n']);
        } else {
            assert(s@ =~= e + t + seq!['\n']);
        }
    }
}

proof fn lemma_joined_push(l: Seq<Seq<char>>, x: Seq<char>, sep: Seq<char>)
    ensures
        l.len() > 0 ==> text::joined(l.push(x), sep) == text::joined(l, sep) + sep + x,
        l.len() == 0 ==> text::joined(l.push(x), sep) == x,
{
    assert(l.push(x).drop_last() =~= l);
    assert(l.push(x).last() == x);
}

/// Filling lines loses no word and keeps their order.
proof fn lemma_wrap_keeps(
    words: Seq<Seq<char>>,
    k: int,
    done: Seq<Seq<char>>,
    cur: Seq<char>,
    width: nat,
)
    requires
        0 <= k <= words.len(),
        cur.len() == 0 ==> done.len() == 0,
        forall|i: int| 0 <= i < words.len() ==> (#[trigger] words[i]).len() > 0,
        cur.len() == 0 ==> k == 0,
        cur.len() > 0 ==> text::joined(done.push(cur), seq![' ']) == text::joined(
            words.take(k),
            seq![' '],
        ),
        k > 0 ==> cur.len() > 0,
        forall|i: int|
            0 <= i < done.len() ==> (#[trigger] done[i]).len() <= width || words.contains(done[i]),
        cur.len() <= width || words.contains(cur),
    ensures
        text::joined(wrapped(words, k, done, cur, width), seq![' ']) == text::joined(
            words,
            seq![' '],
        ),
        forall|i: int|
            0 <= i < wrapped(words, k, done, cur, width).len() ==> (#[trigger] wrapped(
                words,
                k,
                done,
                cur,
                width,
            )[i]).len() <= width || words.contains(wrapped(words, k, done, cur, width)[i]),
    decreases words.len() - k,
{
    let b = seq![' '];
    reveal_strlit(" ");
    assert(" "@ =~= b);
    if k >= words.len() {
        assert(words.take(k) =~= words);
        if cur.len() == 0 {
            assert(done =~= words);
        }
    } else {
        let w = words[k];
        assert(words.contains(w));
        assert(words.take(k + 1) =~= words.take(k).push(w));
        lemma_joined_push(words.take(k), w, b);
        if cur.len() == 0 {
            lemma_joined_push(done, w, b);
            lemma_wrap_keeps(words, k + 1, done, w, width);
        } else if cur.len() + 1 + w.len() > width {
            lemma_joined_push(done.push(cur), w, b);
            assert forall|i: int| 0 <= i < done.push(cur).len() implies (#[trigger] done.push(
                cur,
            )[i]).len() <= width || words.contains(done.push(cur)[i]) by {
                if i < done.len() {
                    assert(done.push(cur)[i] == done[i]);
                }
            }
            lemma_wrap_keeps(words, k + 1, done.push(cur), w, width);
        } else {
            let next = cur + " "@ + w;
            lemma_joined_push(done, cur, b);
            lemma_joined_push(done, next, b);
            assert(text::joined(done.push(next), b) =~= text::joined(done.push(cur), b) + b + w);
            lemma_wrap_keeps(words, k + 1, done, next, width);
        }
    }
}

/// What fits on one line stays on one.
proof fn lemma_wrap_one(words: Seq<Seq<char>>, k: int, cur: Seq<char>, width: nat)
    requires
        0 <= k <= words.len(),
        forall|i: int| 0 <= i < words.len() ==> (#[trigger] words[i]).len() > 0,
        k == 0 ==> cur.len() == 0,
        k > 0 ==> cur.len() > 0 && cur == text::joined(words.take(k), seq![' ']),
        text::joined(words, seq![' ']).len() <= width,
        words.len() > 0,
    ensures
        wrapped(words, k, Seq::empty(), cur, width) == seq![text::joined(words, seq![' '])],
    decreases words.len() - k,
{
    let b = seq![' '];
    reveal_strlit(" ");
    assert(" "@ =~= b);
    if k >= words.len() {
        assert(words.take(k) =~= words);
        assert(Seq::<Seq<char>>::empty().push(cur) =~= seq![cur]);
    } else {
        let w = words[k];
        assert(words.take(k + 1) =~= words.take(k).push(w));
        lemma_joined_push(words.take(k), w, b);
        lemma_joined_grows(words, k + 1);
        if cur.len() == 0 {
            lemma_wrap_one(words, k + 1, w, width);
        } else {
            assert(text::joined(words.take(k + 1), b) =~= cur + " "@ + w);
            lemma_wrap_one(words, k + 1, cur + " "@ + w, width);
        }
    }
}

proof fn lemma_joined_grows(words: Seq<Seq<char>>, k: int)
    requires
        0 <= k <= words.len(),
    ensures
        text::joined(words.take(k), seq![' ']).len() <= text::joined(words, seq![' ']).len(),
    decreases words.len() - k,
{
    if k < words.len() {
        assert(words.take(k + 1) =~= words.take(k).push(words[k]));
        lemma_joined_push(words.take(k), words[k], seq![' ']);
        lemma_joined_grows(words, k + 1);
    } else {
        assert(words.take(k) =~= words);
    }
}

proof fn lemma_words(s: Seq<char>)
    ensures
        forall|i: int| 0 <= i < text::words(s).len() ==> (#[trigger] text::words(s)[i]).len() > 0,
{
    let p = text::parts(s, Sep::Space);
    let f = |x: Seq<char>| x.len() > 0;
    assert forall|i: int| 0 <= i < text::words(s).len() implies (#[trigger] text::words(
        s,
    )[i]).len() > 0 by {
        p.lemma_filter_pred(f, i);
        assert(f(p.filter(f)[i]));
    }
}

/// Prose on lines loses no word and keeps their order. A line is no wider than the terminal
/// leaves behind the rail, three columns less and at least 24, unless one word is; and what fits
/// on one line stays on one.
pub proof fn prose_keeps_its_words(style: &Style, s: &str, out: Vec<String>, words: Vec<&str>)
    requires
        call_ensures(Style::wrap, (style, s), out),
        call_ensures(text::split_words, (s,), words),
    ensures
        ({
            let width = if style.width < 27 {
                24int
            } else {
                style.width - 3
            };
            let all = text::joined(text::views(words@), seq![' ']);
            &&& text::joined(text::contents(out@), seq![' ']) == all
            &&& forall|i: int|
                0 <= i < out@.len() ==> (#[trigger] out@[i])@.len() <= width || text::views(
                    words@,
                ).contains(out@[i]@)
            &&& words@.len() > 0 && all.len() <= width ==> out@.len() == 1 && out@[0]@ == all
            &&& words@.len() == 0 ==> out@.len() == 0
        }),
{
    let w = text::words(s@);
    let width = prose_width(style.width);
    lemma_words(s@);
    lemma_wrap_keeps(w, 0, Seq::empty(), Seq::empty(), width);
    let l = text::contents(out@);
    assert(l.len() == out@.len());
    assert(w.len() == words@.len());
    assert forall|i: int| 0 <= i < out@.len() implies (#[trigger] out@[i])@.len() <= width
        || text::views(words@).contains(out@[i]@) by {
        assert(l[i] == out@[i]@);
    }
    if w.len() > 0 && text::joined(w, seq![' ']).len() <= width {
        lemma_wrap_one(w, 0, Seq::empty(), width);
        assert(l[0] == out@[0]@);
    }
}

/// A prompt's prose stands behind the mark of its step, and what follows behind the rail.
pub proof fn a_prompt_is_led_by_its_mark(style: &Style, s: &str, w: Vec<String>, out: String)
    requires
        call_ensures(Style::wrap, (style, s), w),
        call_ensures(Style::prose, (style, s), out),
        one_line(s@),
    ensures
        w@.len() == 1 ==> out@ == style.accent@ + "◆"@ + style.reset@ + "  "@ + w@[0]@ + "\n"@,
        w@.len() == 2 && !style.colors ==> out@ == style.accent@ + "◆"@ + style.reset@ + "  "@
            + w@[0]@ + "\n"@ + "│"@ + "  "@ + w@[1]@ + "\n"@,
{
    lemma_one_line(s@);
    let l = seq![s@];
    assert(l.drop_last() =~= Seq::<Seq<char>>::empty());
    assert(style.wrap_all(Seq::<Seq<char>>::empty()) =~= Seq::<Seq<char>>::empty());
    let c = text::contents(w@);
    assert(style.wrap_all(l) =~= c);
    assert(c.len() == w@.len());
    assert(style.led(c, 0) =~= Seq::<char>::empty());
    if w@.len() >= 1 {
        assert(c[0] == w@[0]@);
        let first = style.accent@ + "◆"@ + style.reset@ + "  "@ + w@[0]@ + "\n"@;
        assert(style.led(c, 1) =~= first);
        if w@.len() == 2 && !style.colors {
            assert(c[1] == w@[1]@);
            assert(style.led(c, 2) == style.led(c, 1) + style.lead_of(false) + "  "@ + c[1]
                + "\n"@);
        }
    }
}

/// The live line says how many phases of how many were begun, under which heading, and fills its
/// fourteen cells in that share.
pub proof fn a_heading_moves_the_live_line(
    t: &mut Tui,
    msg: &str,
    ops: Vec<TermOp>,
    n: nat,
)
    requires
        call_ensures(Tui::say, (t, msg), ops),
        old(t).progress is Some,
        old(t).progress->0.done < usize::MAX,
        ({
            let total = old(t).progress->0.total as int;
            let done = old(t).progress->0.done + 1;
            ||| total == 0 && n == 0
            ||| 0 < total <= done && n == 14
            ||| done < total && n * total <= 14 * done < (n + 1) * total
        }),
    ensures
        final(t).style == old(t).style,
        final(t).progress is Some,
        final(t).progress->0.total == old(t).progress->0.total,
        final(t).progress->0.done == old(t).progress->0.done + 1,
        final(t).progress->0.title@ == msg@,
        ({
            let style = old(t).style;
            let p = old(t).progress->0;
            let line = style.dim_of("│"@) + "  "@ + style.accent_of("◆"@) + " "@ + style.dim_of(
                summary::repeated('▓', n) + summary::repeated('░', (14 - n) as nat),
            ) + " "@ + style.lens_of(
                text::decimal((p.done + 1) as nat) + "/"@ + text::decimal(p.total as nat) + "  "@
                    + msg@,
            ) + "\n"@;
            &&& ops@.last()@ == OpView::Write(line)
            &&& final(t).progress->0.drawn == text::lines_of(line).len()
            &&& p.drawn > 0 ==> ops@.len() == 2 && ops@[0]@ == OpView::Clear(p.drawn)
            &&& p.drawn == 0 ==> ops@.len() == 1
        }),
{
    let p = old(t).progress->0;
    let total = p.total as int;
    let done = p.done + 1;
    if done < total {
        assert((14 * done) / total == n) by (nonlinear_arith)
            requires
                total > 0,
                n * total <= 14 * done < (n + 1) * total,
        ;
    }
    assert(filled_of(done as nat, total as nat) == n);
    let v = op_views(ops@);
    assert(v.len() == ops@.len());
    assert(v[v.len() - 1] == ops@[ops@.len() - 1]@);
    assert(v[0] == ops@[0]@);
}

/// A quiet run begins at nothing of its phases, each heading takes back what the one before
/// drew, and its end takes back the last.
pub proof fn a_live_line_is_taken_back(
    t: &mut Tui,
    total: usize,
    a: &mut Tui,
    one: &str,
    drawn: Vec<TermOp>,
    b: &mut Tui,
    end: Vec<TermOp>,
)
    requires
        call_ensures(Tui::begin_progress, (t, total), ()),
        *old(a) == *final(t),
        call_ensures(Tui::say, (a, one), drawn),
        *old(b) == *final(a),
        call_ensures(Tui::end_progress, (b,), end),
    ensures
        final(t).style == old(t).style,
        final(t).progress is Some && final(t).progress->0.total == total
            && final(t).progress->0.done == 0,
        drawn@.len() == 1 && drawn@[0]@ is Write,
        final(a).progress is Some && final(a).progress->0.done == 1,
        final(b).progress is None && final(b).style == old(t).style,
        text::lines_of(drawn@[0]@->Write_0).len() > 0 ==> end@.len() == 1 && end@[0]@
            == OpView::Clear(final(a).progress->0.drawn) && final(a).progress->0.drawn
            == text::lines_of(drawn@[0]@->Write_0).len(),
{
    let v = op_views(drawn@);
    assert(v.len() == drawn@.len());
    assert(v[0] == drawn@[0]@);
    let w = op_views(end@);
    assert(w.len() == end@.len());
    if w.len() > 0 {
        assert(w[0] == end@[0]@);
    }
}

/// Off the live line a heading, a command and everything else is printed behind the rail, with
/// its own mark.
pub proof fn what_is_said_is_printed(
    t: &Tui,
    msg: &str,
    fine: Vec<TermOp>,
    plus: Vec<TermOp>,
    detail: Vec<TermOp>,
    line: Vec<TermOp>,
    blank: Vec<TermOp>,
)
    requires
        call_ensures(Tui::fine, (t, msg), fine),
        call_ensures(Tui::plus, (t, msg), plus),
        call_ensures(Tui::detail, (t, msg), detail),
        call_ensures(Tui::line, (t, msg), line),
        call_ensures(Tui::blank, (t,), blank),
    ensures
        t.progress is Some ==> fine@.len() == 0 && plus@.len() == 0 && detail@.len() == 0
            && line@.len() == 0 && blank@.len() == 0,
        t.progress is None ==> {
            let s = t.style;
            let bar = s.dim_of("│"@);
            &&& fine@.len() == 1 && fine@[0]@ == OpView::Write(
                bar + "  "@ + s.dim_of("◇"@) + " "@ + msg@ + "\n"@,
            )
            &&& plus@.len() == 1 && plus@[0]@ == OpView::Write(
                bar + "    "@ + s.dim_of("+ "@ + msg@) + "\n"@,
            )
            &&& detail@.len() == 1 && detail@[0]@ == OpView::Write(
                bar + "    "@ + s.dim_of(msg@) + "\n"@,
            )
            &&& line@.len() == 1 && line@[0]@ == OpView::Write(bar + "  "@ + msg@ + "\n"@)
            &&& blank@.len() == 1 && blank@[0]@ == OpView::Write(bar + "\n"@)
        },
{
    assert(op_views(fine@).len() == fine@.len());
    assert(op_views(plus@).len() == plus@.len());
    assert(op_views(detail@).len() == detail@.len());
    assert(op_views(line@).len() == line@.len());
    assert(op_views(blank@).len() == blank@.len());
    if t.progress is None {
        assert(op_views(fine@)[0] == fine@[0]@);
        assert(op_views(plus@)[0] == plus@[0]@);
        assert(op_views(detail@)[0] == detail@[0]@);
        assert(op_views(line@)[0] == line@[0]@);
        assert(op_views(blank@)[0] == blank@[0]@);
    }
}

/// A warning is printed whether there is a live line or not; the line keeps what it said and is
/// painted again below it. A heading off the live line stands behind the step's mark.
pub proof fn a_warning_outlives_the_line(
    t: &mut Tui,
    msg: &str,
    ops: Vec<TermOp>,
    u: &mut Tui,
    heading: Vec<TermOp>,
)
    requires
        call_ensures(Tui::warn, (t, msg), ops),
        old(u).progress is None,
        call_ensures(Tui::say, (u, msg), heading),
    ensures
        ({
            let s = old(t).style;
            let mark = if s.colors {
                "\x1b[33m"@ + "▲"@ + "\x1b[0m"@
            } else {
                "▲"@
            };
            let told = OpView::Write(s.dim_of("│"@) + "  "@ + mark + " "@ + msg@ + "\n"@);
            &&& old(t).progress is None ==> ops@.len() == 1 && ops@[0]@ == told
                && final(t).progress is None
            &&& old(t).progress is Some ==> ops@.len() >= 2 && ops@[ops@.len() - 2]@ == told
                && ops@.last()@ is Write && final(t).progress is Some
                && final(t).progress->0.done == old(t).progress->0.done
                && final(t).progress->0.total == old(t).progress->0.total
                && final(t).progress->0.title@ == old(t).progress->0.title@
            &&& old(t).progress is Some && old(t).progress->0.drawn > 0 ==> ops@.len() == 3
                && ops@[0]@ == OpView::Clear(old(t).progress->0.drawn)
        }),
        final(t).style == old(t).style,
        final(u).progress is None,
        heading@.len() == 2,
        heading@[0]@ == OpView::Write(old(u).style.dim_of("│"@) + "\n"@),
        heading@[1]@ == OpView::Write(
            old(u).style.accent_of("◆"@) + "  "@ + old(u).style.lens_of(msg@) + "\n"@,
        ),
{
    let v = op_views(ops@);
    assert(v.len() == ops@.len());
    assert(v[0] == ops@[0]@);
    assert(v[v.len() - 1] == ops@[ops@.len() - 1]@);
    if ops@.len() >= 2 {
        assert(v[v.len() - 2] == ops@[ops@.len() - 2]@);
    }
    let h = op_views(heading@);
    assert(h.len() == heading@.len());
    assert(h[0] == heading@[0]@ && h[1] == heading@[1]@);
}

/// A failure takes the live line down first and says why last; a failure and an outro are printed
/// behind the rail.
pub proof fn a_failure_says_why(
    t: &mut Tui,
    msg: &str,
    ops: Vec<TermOp>,
    style: Style,
    made: Tui,
)
    requires
        call_ensures(Tui::die, (t, msg), ops),
        call_ensures(Tui::new, (style,), made),
    ensures
        final(t).progress is None && final(t).style == old(t).style,
        made.progress is None && made.style == style,
        ops@.len() >= 2,
        ops@.last()@ == OpView::Write(
            (if old(t).style.colors {
                "\x1b[31m"@ + "▲"@ + "\x1b[0m"@
            } else {
                "▲"@
            }) + "  "@ + msg@ + "\n"@,
        ),
        old(t).progress is Some && old(t).progress->0.drawn > 0 ==> ops@.len() == 3 && ops@[0]@
            == OpView::Clear(old(t).progress->0.drawn),
        old(t).progress is None ==> ops@.len() == 2,
{
    let v = op_views(ops@);
    assert(v.len() == ops@.len());
    assert(v[0] == ops@[0]@);
    assert(v[v.len() - 1] == ops@[ops@.len() - 1]@);
}

/// The outro prints its lines in their order, each on a corner of the rail.
pub proof fn an_outro_prints_its_lines(
    t: &Tui,
    lines: &Vec<String>,
    more: &Vec<String>,
    ops: Vec<TermOp>,
    after: Vec<TermOp>,
    x: Seq<char>,
)
    requires
        call_ensures(Tui::outro, (t, lines), ops),
        call_ensures(Tui::outro, (t, more), after),
        text::contents(more@) == text::contents(lines@).push(x),
    ensures
        lines@.len() == 0 ==> ops@.len() == 1 && ops@[0]@ == OpView::Write(
            t.style.dim_of("│"@) + "\n"@,
        ),
        op_views(after@) == op_views(ops@).push(
            OpView::Write(t.style.dim_of("└"@) + "  "@ + x + "\n"@),
        ),
{
    let m = text::contents(more@);
    assert(m.drop_last() =~= text::contents(lines@));
    assert(m.last() == x);
    assert(text::contents(lines@).len() == lines@.len());
    assert(op_views(ops@).len() == ops@.len());
    if lines@.len() == 0 {
        assert(op_views(ops@)[0] == ops@[0]@);
    }
}

/// The password question opens on the generated one, and its first answer and backing out keep
/// that; the second types one.
pub proof fn a_password_is_generated_unless_typed(
    t: &Tui,
    url: &str,
    cmd: &str,
    q: Question,
    pick: Option<usize>,
    r: bool,
)
    requires
        call_ensures(Tui::web_password, (t, url, cmd), q),
        call_ensures(types_password, (pick,), r),
    ensures
        q.options@.len() == 2,
        q.options@[0]@ == "Use the generated password"@,
        q.options@[1]@ == "Set my own now"@,
        q.initial == 0,
        text::ends(q.prompt@, cmd@),
        pick is None ==> !r,
        pick == Some(q.initial) ==> !r,
        pick == Some(1usize) ==> r,
{
    let o = text::contents(q.options@);
    assert(o.len() == q.options@.len());
    assert(o[0] == q.options@[0]@ && o[1] == q.options@[1]@);
    assert(q.prompt@.skip(q.prompt@.len() - cmd@.len()) =~= cmd@);
}

/// The bind question opens on what is in force: answering there gives that bind again, and
/// backing out keeps it.
pub proof fn a_bind_question_opens_on_what_is_in_force(
    t: &Tui,
    ip: &str,
    current: &str,
    q: Question,
    pick: Option<usize>,
    a: BindAnswer,
    none: BindAnswer,
)
    requires
        call_ensures(Tui::web_bind, (t, ip, current), q),
        pick == Some(q.initial),
        call_ensures(bind_answer, (pick,), a),
        call_ensures(bind_answer, (None::<usize>,), none),
    ensures
        none == BindAnswer::Keep,
        a == BindAnswer::Loopback <==> current@ == "127.0.0.1"@,
        a == BindAnswer::Lan <==> current@ == "0.0.0.0"@,
        a == BindAnswer::Typed <==> current@ != "127.0.0.1"@ && current@ != "0.0.0.0"@,
        q.options@.len() == 3,
        q.options@[0]@ == "This machine only (https://127.0.0.1:47992)"@,
        q.options@[1]@ == "This local network (https://"@ + ip@ + ":47992)"@,
        q.options@[2]@ == "A specific address (e.g. a VPN interface)"@,
{
    let o = text::contents(q.options@);
    assert(o.len() == q.options@.len());
    assert(o[0] == q.options@[0]@ && o[1] == q.options@[1]@ && o[2] == q.options@[2]@);
    reveal_strlit("127.0.0.1");
    reveal_strlit("0.0.0.0");
    assert("127.0.0.1"@.len() != "0.0.0.0"@.len());
}

/// The keys of a list: the arrows and the letters that stand for them, enter and the blank to
/// take, and the way out; nothing else moves it.
pub proof fn keys_stand_for_themselves(k: TermKey, r: summary::Key)
    requires
        call_ensures(screen_key, (k,), r),
    ensures
        r == summary::Key::Up <==> k == TermKey::Up || k == TermKey::Char('k'),
        r == summary::Key::Down <==> k == TermKey::Down || k == TermKey::Char('j'),
        r == summary::Key::Enter <==> k == TermKey::Enter || k == TermKey::Space,
        r == summary::Key::Cancel <==> k == TermKey::Cancel || k == TermKey::Char('q'),
{
}

/// In a list one key undoes the other, a whole round comes back to the start, what is taken is
/// what the cursor stands on, and taking or leaving does not move it.
pub proof fn a_list_is_walked_both_ways(
    c: &mut Choose,
    p: Pick,
    d: &mut Choose,
    q: Pick,
    e: &mut Choose,
    taken: Pick,
    f: &mut Choose,
    left: Pick,
)
    requires
        old(c).wf(),
        call_ensures(Choose::key, (c, TermKey::Down), p),
        *old(d) == *final(c),
        call_ensures(Choose::key, (d, TermKey::Up), q),
        *old(e) == *final(d),
        call_ensures(Choose::key, (e, TermKey::Enter), taken),
        *old(f) == *final(e),
        call_ensures(Choose::key, (f, TermKey::Cancel), left),
    ensures
        p == Pick::Open && q == Pick::Open,
        old(c).cursor + 1 < old(c).count ==> final(c).cursor == old(c).cursor + 1,
        old(c).cursor + 1 == old(c).count ==> final(c).cursor == 0,
        *final(d) == *old(c),
        taken == Pick::Taken(old(c).cursor),
        *final(e) == *old(c),
        left == Pick::BackedOut,
        *final(f) == *old(c),
{
}

/// A list opens on the answer that was asked for, or on its last where there is no such answer.
pub proof fn a_list_opens_on_an_answer(count: usize, initial: usize, c: Choose)
    requires
        count > 0,
        call_ensures(Choose::new, (count, initial), c),
    ensures
        c.count == count,
        initial < count ==> c.cursor == initial,
        initial >= count ==> c.cursor == count - 1,
{
}

/// A list of answers shows one line more for an answer more, filled where the cursor stands, and
/// ends on the rail.
pub proof fn a_list_shows_each_answer(
    style: &Style,
    prompt: &str,
    options: &Vec<String>,
    more: &Vec<String>,
    cursor: usize,
    s: String,
    t: String,
    x: Seq<char>,
    h: Seq<char>,
)
    requires
        call_ensures(choose_frame, (style, prompt, options, cursor), s),
        call_ensures(choose_frame, (style, prompt, more, cursor), t),
        text::contents(more@) == text::contents(options@).push(x),
        s@ == h + (style.dim_of("│"@) + "\n"@),
    ensures
        cursor == options@.len() ==> t@ == h + (style.dim_of("│"@) + "  "@ + style.accent_of("●"@)
            + " "@ + style.lens_of(x) + "\n"@) + (style.dim_of("│"@) + "\n"@),
        cursor != options@.len() ==> t@ == h + (style.dim_of("│"@) + "  "@ + style.dim_of("○"@)
            + " "@ + style.dim_of(x) + "\n"@) + (style.dim_of("│"@) + "\n"@),
{
    let o = text::contents(options@);
    let m = text::contents(more@);
    let n = o.len() as int;
    assert(n == options@.len());
    lemma_option_front(*style, o, m, cursor as int, n);
    let bar = style.dim_of(BAR@);
    let foot = bar + "\n"@;
    let head = bar + "\n"@ + style.prose_of(prompt@) + option_lines(*style, o, cursor as int, n);
    assert(s@ =~= head + foot);
    assert(h =~= s@.take(s@.len() - foot.len()));
    assert(head =~= s@.take(s@.len() - foot.len()));
    let line = option_line(*style, x, n == cursor);
    assert(m[n] == x);
    assert(option_lines(*style, m, cursor as int, n + 1) == option_lines(
        *style,
        m,
        cursor as int,
        n,
    ) + line);
    assert(t@ =~= head + line + foot);
}

proof fn lemma_option_front(
    style: Style,
    a: Seq<Seq<char>>,
    b: Seq<Seq<char>>,
    cursor: int,
    n: int,
)
    requires
        0 <= n <= a.len(),
        n <= b.len(),
        forall|i: int| 0 <= i < n ==> #[trigger] a[i] == b[i],
    ensures
        option_lines(style, a, cursor, n) == option_lines(style, b, cursor, n),
    decreases n,
{
    if n > 0 {
        lemma_option_front(style, a, b, cursor, n - 1);
        assert(a[n - 1] == b[n - 1]);
    }
}

/// What is typed goes to the end of the line and is taken back from there; a character that an
/// environment file would change is not typed at all.
pub proof fn what_is_typed_can_be_taken_back(
    a: &mut AskLine,
    c: char,
    accepted: bool,
    x: Typing,
    b: &mut AskLine,
    y: Typing,
    none: AskLine,
)
    requires
        call_ensures(AskLine::key, (a, TermKey::Char(c), accepted), x),
        *old(b) == *final(a),
        call_ensures(AskLine::key, (b, TermKey::Backspace, accepted), y),
        call_ensures(AskLine::new, (), none),
    ensures
        x == Typing::Open && y == Typing::Open,
        33 <= c as int <= 126 && c != '"' && c != '\'' && c != '\\' && c != '`' && c != '$'
            ==> final(a).typed@ == old(a).typed@.push(c) && final(b).typed@ == old(a).typed@,
        c as int <= 32 || c as int >= 127 || c == '"' || c == '\'' || c == '\\' || c == '`' || c
            == '$' ==> final(a).typed@ == old(a).typed@,
        none.typed@.len() == 0,
{
    assert(old(a).typed@.push(c).drop_last() =~= old(a).typed@);
}

/// A line is taken by enter exactly where it is accepted, left by the way out, and either leaves
/// what was typed; a password is accepted from eight characters on.
pub proof fn a_line_is_taken_where_accepted(
    a: &mut AskLine,
    accepted: bool,
    x: Typing,
    b: &mut AskLine,
    y: Typing,
    s: &mut AskLine,
    z: Typing,
    l: &AskLine,
    long: bool,
)
    requires
        call_ensures(AskLine::key, (a, TermKey::Enter, accepted), x),
        call_ensures(AskLine::key, (b, TermKey::Cancel, accepted), y),
        call_ensures(AskLine::secret_key, (s, TermKey::Enter), z),
        call_ensures(AskLine::long_enough, (l,), long),
    ensures
        accepted ==> x == Typing::Taken,
        !accepted ==> x == Typing::Open,
        y == Typing::BackedOut,
        final(a).typed@ == old(a).typed@,
        final(b).typed@ == old(b).typed@,
        final(s).typed@ == old(s).typed@,
        z == Typing::Taken <==> old(s).typed@.len() >= 8,
        z == Typing::Open <==> old(s).typed@.len() < 8,
        long <==> l.typed@.len() >= 8,
{
}

/// A line being typed is shown behind the cursor, with the hint of what it still needs.
pub proof fn a_typed_line_shows_its_hint(
    style: &Style,
    prose: &str,
    typed: &str,
    short: &str,
    ok: &str,
    p: String,
    s: String,
    t: String,
    hint: String,
)
    requires
        call_ensures(Style::prose, (style, prose), p),
        call_ensures(ask_frame, (style, prose, typed, false, short, ok), s),
        call_ensures(ask_frame, (style, prose, typed, true, short, ok), t),
        call_ensures(password_hint, (), hint),
    ensures
        s@ == style.dim_of("│"@) + "\n"@ + p@ + style.dim_of("│"@) + "  "@ + style.accent_of(
            "▸"@,
        ) + " "@ + style.lens_of(typed@) + "\n"@ + style.dim_of("│"@) + "  "@ + style.dim_of(
            short@,
        ) + "\n"@ + style.dim_of("│"@) + "\n"@,
        t@ == style.dim_of("│"@) + "\n"@ + p@ + style.dim_of("│"@) + "  "@ + style.accent_of(
            "▸"@,
        ) + " "@ + style.lens_of(typed@) + "\n"@ + style.dim_of("│"@) + "  "@ + style.dim_of(ok@)
            + "\n"@ + style.dim_of("│"@) + "\n"@,
        hint@ == "at least "@ + text::decimal(8) + " characters · Esc generates one instead"@,
{
}

/// The password's prompts open on the generated one: taking that or leaving either prompt gives
/// it, the second answer opens an empty line, and what is typed there is the password.
pub proof fn a_typed_password_is_the_one_taken(
    new: PasswordAsk,
    a: &mut PasswordAsk,
    x: PasswordAnswer,
    b: &mut PasswordAsk,
    y: PasswordAnswer,
    c: &mut PasswordAsk,
    z: PasswordAnswer,
)
    requires
        call_ensures(PasswordAsk::new, (), new),
        old(a).wf(),
        call_ensures(PasswordAsk::key, (a, TermKey::Enter), x),
        old(b).wf(),
        call_ensures(PasswordAsk::key, (b, TermKey::Cancel), y),
        old(c).wf(),
        call_ensures(PasswordAsk::key, (c, TermKey::Down), z),
    ensures
        new@ == (PasswordView::List { cursor: 0 }),
        old(a)@ == new@ ==> x is Generated,
        old(a)@ matches PasswordView::List { cursor } ==> cursor != 0 ==> x is Open && final(a)@
            == (PasswordView::Line { typed: Seq::empty() }),
        old(a)@ matches PasswordView::Line { typed } ==> typed.len() >= 8 ==> x is Own
            && x->Own_0@ == typed,
        old(a)@ matches PasswordView::Line { typed } ==> typed.len() < 8 ==> x is Open && final(a)@ == old(a)@,
        y is Generated,
        z is Open,
        old(c)@ == new@ ==> final(c)@ == (PasswordView::List { cursor: 1 }),
{
    assert((final(a)@, x@) == password_step(old(a)@, TermKey::Enter));
    assert((final(b)@, y@) == password_step(old(b)@, TermKey::Cancel));
    assert((final(c)@, z@) == password_step(old(c)@, TermKey::Down));
}

/// An editor opens on what is chosen: the answer it opens on leaves the choice as it is.
pub proof fn an_editor_opens_on_what_is_chosen(
    screen: &Screen,
    field: Field,
    q: Question,
    s: &mut Screen,
    pick: Option<usize>,
)
    requires
        call_ensures(editor, (screen, field), q),
        *old(s) == *screen,
        old(s).wf(),
        old(s).choices.components.host || old(s).choices.components.client,
        pick == Some(q.initial),
        call_ensures(answer_edit, (s, field, pick), ()),
    ensures
        final(s).choices.channel == old(s).choices.channel,
        final(s).choices.components == old(s).choices.components,
        field != Field::OmarchyToasts && field != Field::OmarchyIdle && field
            != Field::OmarchyTheme ==> final(s).choices.toggles == old(s).choices.toggles,
        final(s).cursor == old(s).cursor,
        q.initial < q.options@.len(),
{
}

/// An editor names its answers, and each answer chooses what its words say and nothing else.
pub proof fn an_answer_chooses_what_it_says(
    screen: &Screen,
    q: Question,
    c: Question,
    g: Question,
    s: &mut Screen,
    n: usize,
    t: &mut Screen,
    k: &mut Screen,
    out: &mut Screen,
)
    requires
        call_ensures(editor, (screen, Field::Channel), q),
        call_ensures(editor, (screen, Field::Components), c),
        call_ensures(editor, (screen, Field::Gamestream), g),
        n < 3,
        old(s).wf(),
        call_ensures(answer_edit, (s, Field::Channel, Some(n)), ()),
        old(t).wf(),
        call_ensures(answer_edit, (t, Field::Components, Some(n)), ()),
        old(k).wf(),
        call_ensures(answer_edit, (k, Field::Gamestream, Some(n)), ()),
        old(out).wf(),
        call_ensures(answer_edit, (out, Field::Components, None::<usize>), ()),
    ensures
        text::contents(q.options@) == seq!["stable"@, "canary"@],
        n == 0 ==> final(s).choices.channel == Channel::Stable,
        n == 1 ==> final(s).choices.channel == Channel::Canary,
        final(s).choices.components == old(s).choices.components,
        final(s).choices.toggles == old(s).choices.toggles,
        text::contents(c.options@) == seq![
            "The PC I stream from (host)"@,
            "Both (host + client)"@,
            "The device I play on (client)"@,
        ],
        final(t).choices.components.host <==> n == 0 || n == 1,
        final(t).choices.components.client <==> n == 1 || n == 2,
        final(t).choices.channel == old(t).choices.channel,
        text::contents(g.options@) == seq!["yes"@, "no"@],
        n == 0 ==> final(k).choices.toggles.gamestream,
        n == 1 ==> !final(k).choices.toggles.gamestream,
        final(k).choices.components == old(k).choices.components,
        final(k).choices.toggles.start == old(k).choices.toggles.start,
        final(k).choices.toggles.linger == old(k).choices.toggles.linger,
        *final(out) == *old(out),
{
    assert(editor_options(Field::Channel) =~= seq!["stable"@, "canary"@]);
    assert(editor_options(Field::Gamestream) =~= seq!["yes"@, "no"@]);
    assert(editor_options(Field::Components) =~= seq![
        "The PC I stream from (host)"@,
        "Both (host + client)"@,
        "The device I play on (client)"@,
    ]);
}

/// The settings list shows its title, the page it came from and an entry more for an item more,
/// the one under the cursor set off.
pub proof fn the_list_shows_its_items(
    style: &Style,
    screen: &Screen,
    mark: &str,
    s: String,
    title: String,
    label: &'static str,
    value: String,
    f: Field,
)
    requires
        call_ensures(frame, (style, screen, mark), s),
        call_ensures(Screen::title, (screen,), title),
        screen.items@.len() == 2,
        screen.items@[0] == Item::Go,
        screen.items@[1] == Item::Row(f),
        call_ensures(Screen::label, (f,), label),
        call_ensures(Screen::value, (screen, f), value),
    ensures
        ({
            let bar = style.dim_of("│"@);
            let cols = if style.width < 6 {
                0int
            } else if style.width > 64 {
                58
            } else {
                style.width - 6
            };
            let here = |k: int|
                if screen.cursor == k {
                    style.accent_of("▸"@)
                } else {
                    " "@
                };
            let shown = summary::padded(label@, 25);
            s@ == mark@ + bar + "\n"@ + style.accent_of("◆"@) + "  "@ + style.lens_of(title@)
                + "\n"@ + bar + "  "@ + style.dim_of(screen.facts.docs_page@) + "\n"@ + bar
                + "\n"@ + (bar + "  "@ + here(0) + " "@ + style.lens_of(
                if screen.facts.is_complete() {
                    "Apply these changes"@
                } else {
                    "Install now with these settings"@
                },
            ) + "\n"@ + bar + "  "@ + style.dim_of(summary::repeated('─', cols as nat)) + "\n"@
                + (bar + "  "@ + here(1) + " "@ + (if screen.cursor == 1 {
                style.lens_of(shown) + value@
            } else {
                shown + style.dim_of(value@)
            }) + "\n"@)) + bar + "\n"@ + bar + "  "@ + style.dim_of(
                "↑↓ move · Enter select/edit · q quit — nothing runs until you confirm"@,
            ) + "\n"@
        }),
{
    let rule = style.dim_of(summary::repeated('─', rule_cols(style.width)));
    let none = Seq::<char>::empty();
    assert(items_text(*style, *screen, 0, rule) =~= none);
    let a = item_lines(*style, *screen, 0, rule);
    let b = item_lines(*style, *screen, 1, rule);
    assert(items_text(*style, *screen, 1, rule) =~= a);
    assert(items_text(*style, *screen, 2, rule) =~= a + b);
}

/// A step that runs leads to its action, and no other step to any.
pub proof fn a_run_leads_to_its_action(a: Action, x: Option<Action>, step: Step, y: Option<Action>)
    requires
        call_ensures(action_of, (Step::Run(a),), x),
        call_ensures(action_of, (step,), y),
    ensures
        x == Some(a),
        !(step is Run) ==> y is None,
{
}

} // verus!
