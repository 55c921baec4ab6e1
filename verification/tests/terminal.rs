use punktfunk::setup::ui::summary::{pad, repeat, Key};
use punktfunk::setup::ui::tui::{
    ask_frame, bind_answer, choose_frame, password_hint, screen_key, types_password, AskLine, BindAnswer,
    Choose, PasswordAnswer, PasswordAsk, Pick, Style, TermKey, TermOp, Tui, Typing,
};
use punktfunk::text::{
    decimal_i32, decimal_u64, join, lines, parse_u64, replace, same_ignoring_case, split, split_once,
    split_words, strip_prefix, strip_suffix, to_lower, trim, Sep,
};

fn plain(width: u16) -> Style {
    Style {
        colors: false,
        width,
        accent: String::new(),
        lens: String::new(),
        reset: String::new(),
    }
}

fn colored(width: u16) -> Style {
    Style {
        colors: true,
        width,
        accent: "\x1b[35m".to_string(),
        lens: "\x1b[36m".to_string(),
        reset: "\x1b[0m".to_string(),
    }
}

fn written(ops: &[TermOp]) -> String {
    ops.iter()
        .map(|o| match o {
            TermOp::Clear(n) => format!("<clear {n}>"),
            TermOp::Write(t) => t.clone(),
        })
        .collect()
}

#[test]
fn the_rail_prints_what_it_is_told() {
    let mut t = Tui::new(plain(80));
    assert_eq!(written(&t.fine("done")), "│  ◇ done\n");
    assert_eq!(written(&t.plus("ls")), "│    + ls\n");
    assert_eq!(written(&t.line("x")), "│  x\n");
    assert_eq!(written(&t.blank()), "│\n");
    assert_eq!(written(&t.warn("careful")), "│  ▲ careful\n");
    assert_eq!(written(&t.failure("no")), "│\n▲  no\n");
    assert_eq!(colored(80).dim("x"), "\x1b[2mx\x1b[0m");
}

#[test]
fn the_live_line_hides_all_but_warnings() {
    let mut t = Tui::new(plain(80));
    t.begin_progress(2);
    let first = written(&t.say("Installing"));
    assert!(first.contains("1/2  Installing"), "{first}");
    assert!(first.contains("▓▓▓▓▓▓▓░░░░░░░"), "{first}");
    assert!(t.plus("ls").is_empty());
    assert!(t.fine("ok").is_empty());
    let warned = written(&t.warn("hot"));
    assert!(warned.starts_with("<clear 1>│  ▲ hot\n"), "{warned}");
    assert!(warned.contains("1/2  Installing"), "the line comes back");
    let died = written(&t.die("broke"));
    assert_eq!(died, "<clear 1>│\n▲  broke\n");
    assert!(t.progress.is_none());
}

#[test]
fn a_line_is_cut_to_the_terminal() {
    let line = "abcdefghijklmnopqrstuvwxyz";
    assert_eq!(plain(22).fit(&format!("{line}\nxy\n")), "abcdefghijklmnopqrstuv\nxy\n");
    // A terminal narrower than twenty columns counts as twenty.
    assert_eq!(plain(5).fit(line), "abcdefghijklmnopqrst\n");
    // What colours take up is no column, and a cut line ends in a reset.
    assert_eq!(
        colored(20).fit(&format!("\x1b[31m{line}")),
        "\x1b[31mabcdefghijklmnopqrst\x1b[0m\n"
    );
    assert_eq!(colored(20).fit("abc"), "abc\n");
}

#[test]
fn keys_of_lists_and_lines() {
    let mut c = Choose::new(3, 9);
    assert_eq!(c.cursor, 2);
    assert_eq!(c.key(TermKey::Down), Pick::Open);
    assert_eq!(c.cursor, 0);
    c.key(TermKey::Char('k'));
    assert_eq!(c.cursor, 2);
    assert_eq!(c.key(TermKey::Space), Pick::Taken(2));
    assert_eq!(c.key(TermKey::Char('q')), Pick::BackedOut);
    assert_eq!(screen_key(TermKey::Char('j')), Key::Down);
    assert_eq!(screen_key(TermKey::Other), Key::Ignored);
    let mut a = AskLine::new();
    for ch in "pass$wo rd\"1".chars() {
        a.key(TermKey::Char(ch), false);
    }
    assert_eq!(a.typed, "password1", "what an environment file would unquote is not typed");
    assert!(a.long_enough());
    a.key(TermKey::Backspace, false);
    a.key(TermKey::Backspace, false);
    assert_eq!(a.typed, "passwor");
    assert!(!a.long_enough());
    assert_eq!(a.key(TermKey::Enter, false), Typing::Open);
    assert_eq!(a.key(TermKey::Enter, true), Typing::Taken);
    assert_eq!(a.key(TermKey::Cancel, true), Typing::BackedOut);
    assert_eq!(password_hint(), "at least 8 characters · Esc generates one instead");
    assert!(!types_password(None) && !types_password(Some(0)) && types_password(Some(1)));
    assert_eq!(bind_answer(None), BindAnswer::Keep);
    assert_eq!(bind_answer(Some(1)), BindAnswer::Lan);
    let t = Tui::new(plain(80));
    assert_eq!(t.web_bind("10.0.0.2", "100.64.0.3").initial, 2);
    assert!(t.web_password("https://x", "cat f").prompt.ends_with("cat f"));
    let f = choose_frame(
        &plain(80),
        "Pick",
        &vec!["one".to_string(), "two".to_string()],
        1,
    );
    assert!(f.contains("○ one\n") && f.contains("● two\n"), "{f}");
}

#[test]
fn a_password_is_taken_only_when_it_is_long_enough() {
    let mut a = AskLine::new();
    for ch in "pass wo\"r".chars() {
        assert_eq!(a.secret_key(TermKey::Char(ch)), Typing::Open);
    }
    assert_eq!(a.typed, "passwor");
    assert_eq!(a.secret_key(TermKey::Enter), Typing::Open, "seven are too few");
    a.secret_key(TermKey::Char('d'));
    assert_eq!(a.secret_key(TermKey::Enter), Typing::Taken);

    // Enter on the first answer, and Esc on either prompt, keep the generated one.
    let mut ask = PasswordAsk::new();
    assert!(matches!(ask.key(TermKey::Enter), PasswordAnswer::Generated));
    let mut ask = PasswordAsk::new();
    assert!(matches!(ask.key(TermKey::Cancel), PasswordAnswer::Generated));
    let mut ask = PasswordAsk::new();
    assert!(matches!(ask.key(TermKey::Down), PasswordAnswer::Open));
    assert!(matches!(ask.key(TermKey::Enter), PasswordAnswer::Open));
    assert!(matches!(&ask, PasswordAsk::Line(l) if l.typed.is_empty()));
    for ch in "correct-h$orse".chars() {
        assert!(matches!(ask.key(TermKey::Char(ch)), PasswordAnswer::Open));
    }
    for _ in 0..6 {
        ask.key(TermKey::Backspace);
    }
    assert!(matches!(ask.key(TermKey::Enter), PasswordAnswer::Open));
    ask.key(TermKey::Char('x'));
    assert!(matches!(
        ask.key(TermKey::Enter),
        PasswordAnswer::Own(p) if p == "correctx"
    ));
    assert!(matches!(ask.key(TermKey::Cancel), PasswordAnswer::Generated));
}

#[test]
fn texts() {
    assert_eq!(repeat('x', 3), "xxx");
    assert_eq!(pad("ab", 4), "ab  ");
    assert_eq!(pad("abcde", 4), "abcde");
    assert_eq!(split("a,,b", Sep::Is(',')), vec!["a", "", "b"]);
    assert_eq!(split_words("  a \t b\n"), vec!["a", "b"]);
    assert_eq!(trim("\u{a0} x ", Sep::Space), "x");
    assert_eq!(strip_prefix("abc", "ab"), Some("c"));
    assert_eq!(strip_suffix("abc", "bc"), Some("a"));
    assert_eq!(split_once("a=b=c", '='), Some(("a", "b=c")));
    assert_eq!(replace("aXbX", "X", "yy"), "ayybyy");
    assert_eq!(lines("a\r\nb\n\nc"), vec!["a", "b", "", "c"]);
    assert_eq!(to_lower("ÄbC"), "Äbc");
    assert!(same_ignoring_case("AbC", "aBc"));
    assert_eq!(join(&vec!["a".to_string(), "b".to_string()], "--"), "a--b");
    assert_eq!(decimal_i32(i32::MIN), "-2147483648");
    for n in [0u64, 7, 10, 999, u64::MAX] {
        assert_eq!(decimal_u64(n), n.to_string());
        assert_eq!(parse_u64(&decimal_u64(n)), Some(n));
    }
    assert_eq!(parse_u64("+5"), Some(5));
    assert_eq!(parse_u64("18446744073709551616"), None);
    assert_eq!(parse_u64(""), None);
    assert_eq!(parse_u64("-1"), None);
}

#[test]
fn prose_is_wrapped_line_by_line() {
    let s = plain(30);
    assert_eq!(
        s.wrap("  one two   three four five six seven"),
        ["one two three four five six", "seven"]
    );
    assert!(s.wrap("   ").is_empty());
    // A word that is too long has a line of its own.
    assert_eq!(
        plain(10).wrap("a abcdefghijklmnopqrstuvwxyz b"),
        ["a", "abcdefghijklmnopqrstuvwxyz", "b"]
    );
    assert_eq!(s.prose("one\n\ntwo"), "◆  one\n│  two\n");
}

#[test]
fn a_typed_line_shows_its_hint() {
    let s = plain(80);
    assert_eq!(
        ask_frame(&s, "Type it.", "abc", false, "longer", "fine"),
        "│\n◆  Type it.\n│  ▸ abc\n│  longer\n│\n"
    );
    assert!(ask_frame(&s, "Type it.", "abc", true, "longer", "fine").contains("│  fine\n"));
    assert_eq!(colored(80).accented("x"), "\x1b[35mx\x1b[0m");
    assert_eq!(colored(80).highlight("x"), "\x1b[36mx\x1b[0m");
}

#[test]
fn the_live_line_is_taken_down_once() {
    let mut t = Tui::new(plain(80));
    assert!(t.end_progress().is_empty());
    t.begin_progress(1);
    t.say("One");
    assert_eq!(written(&t.end_progress()), "<clear 1>");
    assert!(t.end_progress().is_empty());
    assert_eq!(written(&t.say("Two")), "│\n◆  Two\n");
}

/// The rows that calls leave on the screen.
fn rows(ops: &[TermOp]) -> i64 {
    ops.iter()
        .map(|o| match o {
            TermOp::Clear(n) => -(*n as i64),
            TermOp::Write(t) => t.lines().count() as i64,
        })
        .sum()
}

#[test]
fn live_lines_never_stack() {
    let mut t = Tui::new(plain(80));
    t.begin_progress(3);
    // A heading of two lines takes two rows, and both are lifted.
    let mut left = rows(&t.say("One\nand more"));
    assert_eq!(left, 2);
    assert_eq!(t.progress.as_ref().unwrap().drawn, 2);
    left += rows(&t.warn("hot"));
    assert_eq!(left, 3, "the warning stays above the line");
    assert_eq!(t.progress.as_ref().unwrap().drawn, 2);
    left += rows(&t.say("Two"));
    assert_eq!(left, 2);
    assert_eq!(t.progress.as_ref().unwrap().drawn, 1);
    let end = t.end_progress();
    assert_eq!(written(&end), "<clear 1>");
    left += rows(&end);
    assert_eq!(left, 1, "only the warning is left");
}
