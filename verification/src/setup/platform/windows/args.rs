//! The command line dialect of Inno Setup.
//!
//! Package managers and the host's own updater start the installer with these flags, and a box
//! hands a new installer the flags of the old one. An unknown flag is collected, never an error:
//! a strict exit would break a later updater against an earlier installer.

use crate::text;
use crate::text::Sep;
use vstd::prelude::*;
use vstd::string::StrSliceExecFns;

verus! {

/// How much is shown. Silent shows progress only; both silent modes never ask.
#[derive(Clone, Copy, Debug, PartialEq, Eq, Structural)]
pub enum Silence {
    Interactive,
    Silent,
    VerySilent,
}

impl Silence {
    pub fn is_silent(self) -> (r: bool)
        ensures
            r == (self != Silence::Interactive),
    {
        self != Silence::Interactive
    }
}

/// A task by name; one with a leading mark is deselected.
#[derive(Debug, PartialEq, Eq)]
pub struct TaskFlag {
    pub name: String,
    pub selected: bool,
}

/// A task by name.
#[verifier::ext_equal]
pub struct TaskView {
    pub name: Seq<char>,
    pub selected: bool,
}

impl View for TaskFlag {
    type V = TaskView;

    open spec fn view(&self) -> TaskView {
        TaskView { name: self.name@, selected: self.selected }
    }
}

pub open spec fn task_views(v: Seq<TaskFlag>) -> Seq<TaskView> {
    v.map_values(|t: TaskFlag| t@)
}

/// What a command line says. Arguments without a slash pass through.
pub struct InnoArgs {
    pub silence: Silence,
    pub suppress_msgboxes: bool,
    pub log: Option<String>,
    /// Merged over the defaults.
    pub merge_tasks: Vec<TaskFlag>,
    /// In place of the defaults.
    pub tasks: Option<Vec<TaskFlag>>,
    /// For a fresh install; an upgrade follows the install it replaces.
    pub dir: Option<String>,
    /// Where the web console listens, as written.
    pub web_bind: Option<String>,
    /// Flags that are not known: a warning each, never an error.
    pub unknown: Vec<String>,
    pub rest: Vec<String>,
}

/// What a command line says.
#[verifier::ext_equal]
pub struct ArgsView {
    pub silence: Silence,
    pub suppress_msgboxes: bool,
    pub log: Option<Seq<char>>,
    pub merge_tasks: Seq<TaskView>,
    pub tasks: Option<Seq<TaskView>>,
    pub dir: Option<Seq<char>>,
    pub web_bind: Option<Seq<char>>,
    pub unknown: Seq<Seq<char>>,
    pub rest: Seq<Seq<char>>,
}

impl View for InnoArgs {
    type V = ArgsView;

    open spec fn view(&self) -> ArgsView {
        ArgsView {
            silence: self.silence,
            suppress_msgboxes: self.suppress_msgboxes,
            log: text::opt_string(self.log),
            merge_tasks: task_views(self.merge_tasks@),
            tasks: match self.tasks {
                Some(t) => Some(task_views(t@)),
                None => None,
            },
            dir: text::opt_string(self.dir),
            web_bind: text::opt_string(self.web_bind),
            unknown: text::contents(self.unknown@),
            rest: text::contents(self.rest@),
        }
    }
}

/// The flag of an argument: what stands before its first equals sign.
pub open spec fn flag_of(arg: Seq<char>) -> Seq<char> {
    arg.take(text::next_cut(arg, Sep::Is('='), 0))
}

/// A text without the quotes around it; a quote on one side alone stays.
pub open spec fn unquoted(v: Seq<char>) -> Seq<char> {
    if v.len() >= 2 && v[0] == '"' && v.last() == '"' {
        v.subrange(1, v.len() - 1)
    } else {
        v
    }
}

/// The value of an argument: what stands behind its first equals sign.
pub open spec fn value_of(arg: Seq<char>) -> Option<Seq<char>> {
    let i = text::next_cut(arg, Sep::Is('='), 0);
    if i < arg.len() {
        Some(unquoted(arg.skip(i + 1)))
    } else {
        None
    }
}

/// A task of a list, when it names one.
pub open spec fn task_of(part: Seq<char>) -> Option<TaskView> {
    let t = text::trimmed(part, Sep::Space);
    if t.len() == 0 {
        None
    } else if t[0] == '!' {
        Some(TaskView { name: text::lower(t.skip(1)), selected: false })
    } else {
        Some(TaskView { name: text::lower(t), selected: true })
    }
}

pub open spec fn tasks_of(parts: Seq<Seq<char>>) -> Seq<TaskView>
    decreases parts.len(),
{
    if parts.len() == 0 {
        Seq::empty()
    } else {
        let rest = tasks_of(parts.drop_last());
        match task_of(parts.last()) {
            Some(t) => rest.push(t),
            None => rest,
        }
    }
}

/// The tasks of an argument's value; none without one.
pub open spec fn task_list_of(arg: Seq<char>) -> Seq<TaskView> {
    tasks_of(
        text::parts(
            match value_of(arg) {
                Some(v) => v,
                None => ""@,
            },
            Sep::Is(','),
        ),
    )
}

/// A command line that says nothing.
pub open spec fn nothing_said() -> ArgsView {
    ArgsView {
        silence: Silence::Interactive,
        suppress_msgboxes: false,
        log: None,
        merge_tasks: Seq::empty(),
        tasks: None,
        dir: None,
        web_bind: None,
        unknown: Seq::empty(),
        rest: Seq::empty(),
    }
}

/// What one more argument adds. Flags go by their name whatever its case; a silent one never
/// weakens a very silent one before it.
pub open spec fn with_arg(a: ArgsView, arg: Seq<char>) -> ArgsView {
    let f = flag_of(arg);
    if arg.len() == 0 || arg[0] != '/' {
        ArgsView { rest: a.rest.push(arg), ..a }
    } else if text::like(f, "/verysilent"@) {
        ArgsView { silence: Silence::VerySilent, ..a }
    } else if text::like(f, "/silent"@) {
        ArgsView {
            silence: if a.silence == Silence::Interactive {
                Silence::Silent
            } else {
                a.silence
            },
            ..a
        }
    } else if text::like(f, "/suppressmsgboxes"@) {
        ArgsView { suppress_msgboxes: true, ..a }
    } else if text::like(f, "/log"@) {
        ArgsView { log: value_of(arg), ..a }
    } else if text::like(f, "/mergetasks"@) {
        ArgsView { merge_tasks: a.merge_tasks + task_list_of(arg), ..a }
    } else if text::like(f, "/tasks"@) {
        ArgsView { tasks: Some(task_list_of(arg)), ..a }
    } else if text::like(f, "/dir"@) {
        ArgsView { dir: value_of(arg), ..a }
    } else if text::like(f, "/webbind"@) {
        ArgsView { web_bind: value_of(arg), ..a }
    } else if text::like(f, "/norestart"@) || text::like(f, "/sp-"@) {
        a
    } else {
        ArgsView { unknown: a.unknown.push(arg), ..a }
    }
}

/// What a command line says.
pub open spec fn args_of(args: Seq<Seq<char>>) -> ArgsView
    decreases args.len(),
{
    if args.len() == 0 {
        nothing_said()
    } else {
        with_arg(args_of(args.drop_last()), args.last())
    }
}

/// Quotes survive some callers and not others.
fn unquote(v: &str) -> (s: String)
    ensures
        s@ == unquoted(v@),
{
    let c: Vec<char> = text::chars_of(v);
    let n: usize = c.len();
    if n >= 2 && c[0] == '"' && c[n - 1] == '"' {
        v.substring_char(1, n - 1).to_owned()
    } else {
        v.to_owned()
    }
}

fn value(arg: &str) -> (v: Option<String>)
    ensures
        text::opt_string(v) == value_of(arg@),
{
    match text::split_once(arg, '=') {
        Some(p) => Some(unquote(p.1)),
        None => None,
    }
}

fn task_list(arg: &str) -> (out: Vec<TaskFlag>)
    ensures
        task_views(out@) == task_list_of(arg@),
{
    let v: String = match value(arg) {
        Some(v) => v,
        None => "".to_owned(),
    };
    let parts: Vec<&str> = text::split(v.as_str(), Sep::Is(','));
    let ghost p = text::views(parts@);
    let mut out: Vec<TaskFlag> = Vec::new();
    let mut i: usize = 0;
    assert(p.take(0) =~= Seq::<Seq<char>>::empty());
    assert(task_views(out@) =~= Seq::<TaskView>::empty());
    while i < parts.len()
        invariant
            i <= parts@.len(),
            p == text::views(parts@),
            task_views(out@) == tasks_of(p.take(i as int)),
        decreases parts@.len() - i,
    {
        proof {
            assert(p.take(i + 1).drop_last() =~= p.take(i as int));
            assert(p.take(i + 1).last() == parts@[i as int]@);
        }
        let t: &str = text::trim(parts[i], Sep::Space);
        let c: Vec<char> = text::chars_of(t);
        let ghost before = out@;
        if c.len() > 0 {
            let flag: TaskFlag = if c[0] == '!' {
                let name: &str = t.substring_char(1, c.len());
                assert(name@ =~= t@.skip(1));
                TaskFlag { name: text::to_lower(name), selected: false }
            } else {
                TaskFlag { name: text::to_lower(t), selected: true }
            };
            out.push(flag);
            assert(task_views(out@) =~= task_views(before).push(flag@));
        }
        i = i + 1;
    }
    assert(p.take(i as int) =~= p);
    out
}

fn flag(arg: &str) -> (f: &str)
    ensures
        f@ == flag_of(arg@),
{
    match text::split_once(arg, '=') {
        Some(p) => p.0,
        None => {
            proof {
                text::lemma_next_cut(arg@, Sep::Is('='), 0);
                assert(flag_of(arg@) =~= arg@);
            }
            arg
        },
    }
}

impl InnoArgs {
    /// Reads a command line.
    pub fn parse(args: &Vec<String>) -> (out: InnoArgs)
        ensures
            out@ == args_of(text::contents(args@)),
    {
        let ghost all = text::contents(args@);
        let mut out: InnoArgs = InnoArgs {
            silence: Silence::Interactive,
            suppress_msgboxes: false,
            log: None,
            merge_tasks: Vec::new(),
            tasks: None,
            dir: None,
            web_bind: None,
            unknown: text::no_texts(),
            rest: text::no_texts(),
        };
        let mut i: usize = 0;
        assert(all.take(0) =~= Seq::<Seq<char>>::empty());
        assert(task_views(out.merge_tasks@) =~= Seq::<TaskView>::empty());
        assert(out@ =~= nothing_said());
        while i < args.len()
            invariant
                i <= args@.len(),
                all == text::contents(args@),
                out@ == args_of(all.take(i as int)),
            decreases args@.len() - i,
        {
            proof {
                assert(all.take(i + 1).drop_last() =~= all.take(i as int));
                assert(all.take(i + 1).last() == args@[i as int]@);
            }
            out.take_arg(args[i].as_str());
            i = i + 1;
        }
        assert(all.take(i as int) =~= all);
        out
    }

    fn take_arg(&mut self, arg: &str)
        ensures
            final(self)@ == with_arg(old(self)@, arg@),
    {
        let c: Vec<char> = text::chars_of(arg);
        let f: &str = flag(arg);
        if c.len() == 0 || c[0] != '/' {
            let owned: String = arg.to_owned();
            let ghost before = self.rest@;
            self.rest.push(owned);
            assert(text::contents(self.rest@) =~= text::contents(before).push(arg@));
        } else if text::same_ignoring_case(f, "/verysilent") {
            self.silence = Silence::VerySilent;
        } else if text::same_ignoring_case(f, "/silent") {
            if self.silence == Silence::Interactive {
                self.silence = Silence::Silent;
            }
        } else if text::same_ignoring_case(f, "/suppressmsgboxes") {
            self.suppress_msgboxes = true;
        } else if text::same_ignoring_case(f, "/log") {
            self.log = value(arg);
        } else if text::same_ignoring_case(f, "/mergetasks") {
            let ghost before = self.merge_tasks@;
            let mut more: Vec<TaskFlag> = task_list(arg);
            let ghost added = more@;
            self.merge_tasks.append(&mut more);
            assert(task_views(self.merge_tasks@) =~= task_views(before) + task_views(added));
        } else if text::same_ignoring_case(f, "/tasks") {
            self.tasks = Some(task_list(arg));
        } else if text::same_ignoring_case(f, "/dir") {
            self.dir = value(arg);
        } else if text::same_ignoring_case(f, "/webbind") {
            self.web_bind = value(arg);
        } else if text::same_ignoring_case(f, "/norestart") || text::same_ignoring_case(
            f,
            "/sp-",
        ) {
        } else {
            let owned: String = arg.to_owned();
            let ghost before = self.unknown@;
            self.unknown.push(owned);
            assert(text::contents(self.unknown@) =~= text::contents(before).push(arg@));
        }
    }
}

/// A very silent run stays very silent, whatever follows on the command line.
pub proof fn a_very_silent_run_stays_so(args: Seq<Seq<char>>, more: Seq<Seq<char>>)
    requires
        args_of(args).silence == Silence::VerySilent,
    ensures
        args_of(args + more).silence == Silence::VerySilent,
    decreases more.len(),
{
    if more.len() > 0 {
        a_very_silent_run_stays_so(args, more.drop_last());
        assert((args + more).drop_last() =~= args + more.drop_last());
        assert((args + more).last() == more.last());
    } else {
        assert(args + more =~= args);
    }
}

/// Arguments without a slash pass through, in order.
pub proof fn plain_arguments_pass_through(args: Seq<Seq<char>>)
    ensures
        args_of(args).rest == args.filter(|a: Seq<char>| a.len() == 0 || a[0] != '/'),
    decreases args.len(),
{
    reveal(Seq::filter);
    if args.len() > 0 {
        plain_arguments_pass_through(args.drop_last());
    } else {
        assert(args_of(args).rest =~= args.filter(|a: Seq<char>| a.len() == 0 || a[0] != '/'));
    }
}

proof fn lemma_flag(f: Seq<char>, v: Seq<char>)
    requires
        !f.contains('='),
    ensures
        flag_of(f) == f,
        value_of(f) is None,
        flag_of(f + seq!['='] + v) == f,
        value_of(f + seq!['='] + v) == Some(unquoted(v)),
{
    text::lemma_next_cut(f, Sep::Is('='), 0);
    let i = text::next_cut(f, Sep::Is('='), 0);
    if i < f.len() {
        assert(f.contains(f[i]));
    }
    assert(f.take(i) =~= f);
    let arg = f + seq!['='] + v;
    text::lemma_next_cut(arg, Sep::Is('='), 0);
    let j = text::next_cut(arg, Sep::Is('='), 0);
    assert(arg[f.len() as int] == '=');
    if j < f.len() {
        assert(arg[j] == f[j]);
        assert(f.contains(f[j]));
    }
    assert(j == f.len());
    assert(arg.take(j) =~= f);
    assert(arg.skip(j + 1) =~= v);
}

proof fn lemma_names()
    ensures
        text::lower("/verysilent"@) == "/verysilent"@,
        text::lower("/silent"@) == "/silent"@,
        text::lower("/suppressmsgboxes"@) == "/suppressmsgboxes"@,
        text::lower("/log"@) == "/log"@,
        text::lower("/mergetasks"@) == "/mergetasks"@,
        text::lower("/tasks"@) == "/tasks"@,
        text::lower("/dir"@) == "/dir"@,
        text::lower("/webbind"@) == "/webbind"@,
        text::lower("/norestart"@) == "/norestart"@,
        text::lower("/sp-"@) == "/sp-"@,
        "/verysilent"@.len() == 11 && "/verysilent"@[0] == '/' && "/verysilent"@[1] == 'v',
        "/silent"@.len() == 7 && "/silent"@[0] == '/',
        "/suppressmsgboxes"@.len() == 17 && "/suppressmsgboxes"@[0] == '/',
        "/log"@.len() == 4 && "/log"@[0] == '/' && "/log"@[1] == 'l',
        "/mergetasks"@.len() == 11 && "/mergetasks"@[0] == '/' && "/mergetasks"@[1] == 'm',
        "/tasks"@.len() == 6 && "/tasks"@[0] == '/',
        "/dir"@.len() == 4 && "/dir"@[0] == '/' && "/dir"@[1] == 'd',
        "/webbind"@.len() == 8 && "/webbind"@[0] == '/',
        "/norestart"@.len() == 10 && "/norestart"@[0] == '/',
        "/sp-"@.len() == 4 && "/sp-"@[0] == '/' && "/sp-"@[1] == 's',
{
    reveal_strlit("/verysilent");
    reveal_strlit("/silent");
    reveal_strlit("/suppressmsgboxes");
    reveal_strlit("/log");
    reveal_strlit("/mergetasks");
    reveal_strlit("/tasks");
    reveal_strlit("/dir");
    reveal_strlit("/webbind");
    reveal_strlit("/norestart");
    reveal_strlit("/sp-");
    assert(text::lower("/verysilent"@) =~= "/verysilent"@);
    assert(text::lower("/silent"@) =~= "/silent"@);
    assert(text::lower("/suppressmsgboxes"@) =~= "/suppressmsgboxes"@);
    assert(text::lower("/log"@) =~= "/log"@);
    assert(text::lower("/mergetasks"@) =~= "/mergetasks"@);
    assert(text::lower("/tasks"@) =~= "/tasks"@);
    assert(text::lower("/dir"@) =~= "/dir"@);
    assert(text::lower("/webbind"@) =~= "/webbind"@);
    assert(text::lower("/norestart"@) =~= "/norestart"@);
    assert(text::lower("/sp-"@) =~= "/sp-"@);
}

proof fn lemma_one_more(args: Seq<Seq<char>>, arg: Seq<char>)
    ensures
        args_of(args.push(arg)) == with_arg(args_of(args), arg),
{
    assert(args.push(arg).drop_last() =~= args);
    assert(args.push(arg).last() == arg);
}

proof fn lemma_slash(f: Seq<char>)
    requires
        f.len() > 0,
        text::lower(f)[0] == '/',
    ensures
        f[0] == '/',
{
    assert(text::lower(f)[0] == text::lower_char(f[0]));
}

/// A flag with a value says that value, whatever the case of its name and whether the value is
/// quoted or not, and it changes nothing else.
pub proof fn a_flag_says_its_value(
    args: &Vec<String>,
    a: InnoArgs,
    more: &Vec<String>,
    b: InnoArgs,
    f: Seq<char>,
    v: Seq<char>,
    w: Seq<char>,
)
    requires
        call_ensures(InnoArgs::parse, (args,), a),
        call_ensures(InnoArgs::parse, (more,), b),
        text::contents(more@) == text::contents(args@).push(f + seq!['='] + v),
        !f.contains('='),
        v == seq!['"'] + w + seq!['"'] || (v == w && !w.contains('"')),
    ensures
        text::lower(f) == "/dir"@ ==> b@ == (ArgsView { dir: Some(w), ..a@ }),
        text::lower(f) == "/log"@ ==> b@ == (ArgsView { log: Some(w), ..a@ }),
        text::lower(f) == "/webbind"@ ==> b@ == (ArgsView { web_bind: Some(w), ..a@ }),
{
    let arg = f + seq!['='] + v;
    lemma_one_more(text::contents(args@), arg);
    lemma_flag(f, v);
    lemma_names();
    assert(text::lower(f).len() == f.len());
    if f.len() > 0 {
        assert(arg[0] == f[0]);
        if text::lower(f)[0] == '/' {
            lemma_slash(f);
        }
    }
    if v == seq!['"'] + w + seq!['"'] {
        assert(v.subrange(1, v.len() - 1) =~= w);
    } else if v.len() >= 2 {
        assert(v.contains(v[0]));
    }
    assert(unquoted(v) == w);
}

/// A flag that stands alone is read whatever the case of its name: silence is never taken back,
/// the flags without meaning here change nothing, and one that is not known is kept as it was
/// written.
pub proof fn a_flag_is_read_whatever_its_case(
    args: &Vec<String>,
    a: InnoArgs,
    more: &Vec<String>,
    b: InnoArgs,
    f: Seq<char>,
)
    requires
        call_ensures(InnoArgs::parse, (args,), a),
        call_ensures(InnoArgs::parse, (more,), b),
        text::contents(more@) == text::contents(args@).push(f),
        !f.contains('='),
    ensures
        text::lower(f) == "/verysilent"@ ==> b@ == (ArgsView {
            silence: Silence::VerySilent,
            ..a@
        }),
        text::lower(f) == "/silent"@ ==> b@ == (ArgsView { silence: b.silence, ..a@ })
            && b.silence != Silence::Interactive && (a.silence != Silence::Interactive
            ==> b.silence == a.silence) && (a.silence == Silence::Interactive ==> b.silence
            == Silence::Silent),
        text::lower(f) == "/suppressmsgboxes"@ ==> b@ == (ArgsView {
            suppress_msgboxes: true,
            ..a@
        }),
        text::lower(f) == "/norestart"@ || text::lower(f) == "/sp-"@ ==> b@ == a@,
        f.len() == 0 || f[0] != '/' ==> b@ == (ArgsView { rest: a@.rest.push(f), ..a@ }),
        f.len() > 0 && f[0] == '/' && f.len() != 4 && f.len() != 6 && f.len() != 7 && f.len() != 8
            && f.len() != 10 && f.len() != 11 && f.len() != 17 ==> b@ == (ArgsView {
            unknown: a@.unknown.push(f),
            ..a@
        }),
{
    lemma_one_more(text::contents(args@), f);
    lemma_flag(f, Seq::empty());
    lemma_names();
    assert(text::lower(f).len() == f.len());
    if f.len() > 0 && text::lower(f)[0] == '/' {
        lemma_slash(f);
    }
}

/// A command line of nothing says nothing, and only an interactive run is not silent.
pub proof fn an_empty_line_says_nothing(
    args: &Vec<String>,
    a: InnoArgs,
    s: Silence,
    r: bool,
)
    requires
        call_ensures(InnoArgs::parse, (args,), a),
        args@.len() == 0,
        call_ensures(Silence::is_silent, (s,), r),
    ensures
        a.silence == Silence::Interactive,
        !a.suppress_msgboxes,
        a.log is None && a.tasks is None && a.dir is None && a.web_bind is None,
        a.merge_tasks@.len() == 0 && a.unknown@.len() == 0 && a.rest@.len() == 0,
        r <==> s == Silence::Silent || s == Silence::VerySilent,
{
    assert(text::contents(args@).len() == 0);
    assert(a@ == nothing_said());
    assert(a@.log is None && a@.dir is None && a@.web_bind is None && a@.tasks is None);
    assert(a@.merge_tasks.len() == a.merge_tasks@.len());
    assert(a@.unknown.len() == a.unknown@.len());
    assert(a@.rest.len() == a.rest@.len());
}

/// The name of a task as it is written: nothing in it is taken off or cut.
pub open spec fn written_plain(x: Seq<char>) -> bool {
    &&& x.len() > 0
    &&& forall|i: int|
        0 <= i < x.len() ==> #[trigger] x[i] != ',' && x[i] != '"' && !text::cuts(
            Sep::Space,
            x[i],
        )
}

proof fn lemma_task(x: Seq<char>)
    requires
        written_plain(x),
    ensures
        task_of(x) == Some(
            TaskView {
                name: text::lower(
                    if x[0] == '!' {
                        x.skip(1)
                    } else {
                        x
                    },
                ),
                selected: x[0] != '!',
            },
        ),
{
    assert(x[0] != ',');
    assert(x.last() == x[x.len() - 1]);
    assert(text::trim_front(x, Sep::Space) == x);
    assert(text::trim_back(x, Sep::Space) == x);
}

proof fn lemma_two_tasks(x: Seq<char>, y: Seq<char>)
    requires
        written_plain(x),
        written_plain(y),
    ensures
        text::parts(x + seq![','] + y, Sep::Is(',')) == seq![x, y],
        unquoted(x + seq![','] + y) == x + seq![','] + y,
{
    let v = x + seq![','] + y;
    let n = x.len() as int;
    text::lemma_next_cut(v, Sep::Is(','), 0);
    let i = text::next_cut(v, Sep::Is(','), 0);
    assert(v[n] == ',');
    if i < n {
        assert(v[i] == x[i]);
    }
    assert(i == n);
    text::lemma_next_cut(v, Sep::Is(','), n + 1);
    let j = text::next_cut(v, Sep::Is(','), n + 1);
    if j < v.len() {
        assert(v[j] == y[j - n - 1]);
    }
    assert(v.subrange(0, n) =~= x);
    assert(v.subrange(n + 1, v.len() as int) =~= y);
    assert(text::parts_from(v, Sep::Is(','), n + 1) =~= seq![y]);
    assert(text::parts_from(v, Sep::Is(','), 0) =~= seq![x] + seq![y]);
    assert(seq![x] + seq![y] =~= seq![x, y]);
    assert(v[0] == x[0]);
    assert(x[0] != '"');
}

/// The tasks of a list are taken in their order, in lower case; a mark before a task takes it
/// off. Merged tasks come behind those before, and a plain list stands in their place.
pub proof fn tasks_are_taken_in_order(
    args: &Vec<String>,
    a: InnoArgs,
    more: &Vec<String>,
    b: InnoArgs,
    f: Seq<char>,
    x: Seq<char>,
    y: Seq<char>,
)
    requires
        call_ensures(InnoArgs::parse, (args,), a),
        call_ensures(InnoArgs::parse, (more,), b),
        text::contents(more@) == text::contents(args@).push(f + seq!['='] + (x + seq![','] + y)),
        !f.contains('='),
        written_plain(x),
        written_plain(y),
    ensures
        ({
            let one = TaskView {
                name: text::lower(
                    if x[0] == '!' {
                        x.skip(1)
                    } else {
                        x
                    },
                ),
                selected: x[0] != '!',
            };
            let two = TaskView {
                name: text::lower(
                    if y[0] == '!' {
                        y.skip(1)
                    } else {
                        y
                    },
                ),
                selected: y[0] != '!',
            };
            &&& text::lower(f) == "/mergetasks"@ ==> b@ == (ArgsView {
                merge_tasks: a@.merge_tasks.push(one).push(two),
                ..a@
            })
            &&& text::lower(f) == "/tasks"@ ==> b@ == (ArgsView {
                tasks: Some(seq![one, two]),
                ..a@
            })
        }),
{
    let v = x + seq![','] + y;
    let arg = f + seq!['='] + v;
    lemma_one_more(text::contents(args@), arg);
    lemma_flag(f, v);
    lemma_names();
    assert(text::lower(f).len() == f.len());
    if f.len() > 0 {
        assert(arg[0] == f[0]);
        if text::lower(f)[0] == '/' {
            lemma_slash(f);
        }
    }
    lemma_task(x);
    lemma_task(y);
    lemma_two_tasks(x, y);
    let one = task_of(x)->0;
    let two = task_of(y)->0;
    let p = seq![x, y];
    assert(p.drop_last() =~= seq![x]);
    assert(seq![x].drop_last() =~= Seq::<Seq<char>>::empty());
    assert(tasks_of(Seq::<Seq<char>>::empty()) =~= Seq::<TaskView>::empty());
    assert(tasks_of(seq![x]) =~= seq![one]);
    assert(tasks_of(p) =~= seq![one, two]);
    assert(a@.merge_tasks + seq![one, two] =~= a@.merge_tasks.push(one).push(two));
}

} // verus!
