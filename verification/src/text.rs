//! Reading and writing text as sequences of characters.

use vstd::prelude::*;
use vstd::string::StrSliceExecFns;
use vstd::string::StringExecFns;

verus! {

/// `String::push` appends one character.
pub assume_specification[ String::push ](s: &mut String, c: char)
    ensures
        final(s)@ == old(s)@.push(c),
;

/// The characters of a string.
pub fn chars_of(s: &str) -> (v: Vec<char>)
    ensures
        v@ == s@,
{
    let mut v: Vec<char> = Vec::new();
    for c in it: s.chars()
        invariant
            v@ == it.seq().take(it.index()),
            it.seq() == s@,
    {
        v.push(c);
        assert(v@ =~= it.seq().take(it.index() + 1));
    }
    assert(v@ =~= s@);
    v
}

/// The string of characters.
pub fn string_of(v: &Vec<char>) -> (s: String)
    ensures
        s@ == v@,
{
    let mut s: String = String::new();
    let mut i: usize = 0;
    while i < v.len()
        invariant
            i <= v@.len(),
            s@ == v@.take(i as int),
        decreases v@.len() - i,
    {
        s.push(v[i]);
        i = i + 1;
        assert(s@ =~= v@.take(i as int));
    }
    assert(s@ =~= v@);
    s
}

/// The contents of an optional text.
pub open spec fn opt_view(v: Option<&str>) -> Option<Seq<char>> {
    match v {
        Some(s) => Some(s@),
        None => None,
    }
}

/// The contents of an optional string.
pub open spec fn opt_string(v: Option<String>) -> Option<Seq<char>> {
    match v {
        Some(s) => Some(s@),
        None => None,
    }
}

/// `a` stands before `b` in the order of their characters.
pub open spec fn precedes(a: Seq<char>, b: Seq<char>) -> bool
    decreases a.len(),
{
    if b.len() == 0 {
        false
    } else if a.len() == 0 {
        true
    } else {
        a[0] < b[0] || (a[0] == b[0] && precedes(a.skip(1), b.skip(1)))
    }
}

/// Whether `a` stands before `b` in the order of their characters.
pub fn text_before(a: &str, b: &str) -> (r: bool)
    ensures
        r == precedes(a@, b@),
{
    let x: Vec<char> = chars_of(a);
    let y: Vec<char> = chars_of(b);
    let mut i: usize = 0;
    assert(a@.skip(0) =~= a@ && b@.skip(0) =~= b@);
    while i < x.len() && i < y.len()
        invariant
            x@ == a@,
            y@ == b@,
            i <= x@.len(),
            i <= y@.len(),
            precedes(a@, b@) == precedes(a@.skip(i as int), b@.skip(i as int)),
        decreases x@.len() - i,
    {
        assert(a@.skip(i as int)[0] == x@[i as int] && b@.skip(i as int)[0] == y@[i as int]);
        assert(a@.skip(i as int).skip(1) =~= a@.skip(i + 1));
        assert(b@.skip(i as int).skip(1) =~= b@.skip(i + 1));
        if x[i] < y[i] {
            return true;
        }
        if x[i] != y[i] {
            return false;
        }
        i = i + 1;
    }
    i >= x.len() && i < y.len()
}

/// Both strings hold the same characters.
pub fn same(a: &str, b: &str) -> (r: bool)
    ensures
        r == (a@ == b@),
{
    let x: String = a.to_owned();
    let y: String = b.to_owned();
    x == y
}

/// `s` begins with `p`.
pub open spec fn begins(s: Seq<char>, p: Seq<char>) -> bool {
    p.len() <= s.len() && s.take(p.len() as int) == p
}

/// `s` ends with `p`.
pub open spec fn ends(s: Seq<char>, p: Seq<char>) -> bool {
    p.len() <= s.len() && s.skip(s.len() - p.len()) == p
}

/// `p` stands somewhere in `s`.
pub open spec fn holds(s: Seq<char>, p: Seq<char>) -> bool {
    exists|i: int|
        0 <= i && i + p.len() <= s.len() && #[trigger] s.subrange(i, i + p.len()) == p
}

fn matches_at(s: &Vec<char>, i: usize, p: &Vec<char>) -> (r: bool)
    requires
        i + p@.len() <= s@.len(),
    ensures
        r == (s@.subrange(i as int, i + p@.len()) == p@),
{
    let n: usize = s.len();
    let mut k: usize = 0;
    while k < p.len()
        invariant
            k <= p@.len(),
            n == s@.len(),
            i + p@.len() <= n,
            forall|j: int| 0 <= j < k ==> s@[i + j] == p@[j],
        decreases p@.len() - k,
    {
        if s[i + k] != p[k] {
            assert(s@.subrange(i as int, i + p@.len())[k as int] != p@[k as int]);
            return false;
        }
        k = k + 1;
    }
    assert(s@.subrange(i as int, i + p@.len()) =~= p@);
    true
}

/// Whether `s` begins with `p`.
pub fn starts_with(s: &str, p: &str) -> (r: bool)
    ensures
        r == begins(s@, p@),
{
    let sv: Vec<char> = chars_of(s);
    let pv: Vec<char> = chars_of(p);
    if pv.len() > sv.len() {
        return false;
    }
    assert(s@.take(p@.len() as int) =~= s@.subrange(0, p@.len() as int));
    matches_at(&sv, 0, &pv)
}

/// Whether `s` ends with `p`.
pub fn ends_with(s: &str, p: &str) -> (r: bool)
    ensures
        r == ends(s@, p@),
{
    let sv: Vec<char> = chars_of(s);
    let pv: Vec<char> = chars_of(p);
    if pv.len() > sv.len() {
        return false;
    }
    let at: usize = sv.len() - pv.len();
    assert(s@.skip(s@.len() - p@.len()) =~= s@.subrange(at as int, at + p@.len()));
    matches_at(&sv, at, &pv)
}

/// Whether `p` stands somewhere in `s`.
pub fn contains(s: &str, p: &str) -> (r: bool)
    ensures
        r == holds(s@, p@),
{
    let sv: Vec<char> = chars_of(s);
    let pv: Vec<char> = chars_of(p);
    if pv.len() > sv.len() {
        return false;
    }
    let last: usize = sv.len() - pv.len();
    let mut i: usize = 0;
    loop
        invariant
            sv@ == s@,
            pv@ == p@,
            last == sv@.len() - pv@.len(),
            i <= last,
            forall|j: int| 0 <= j < i ==> #[trigger] s@.subrange(j, j + p@.len()) != p@,
        decreases last - i,
    {
        if matches_at(&sv, i, &pv) {
            return true;
        }
        if i == last {
            return false;
        }
        i = i + 1;
    }
}

/// What follows the prefix `p`, when `s` begins with it.
pub fn strip_prefix<'a>(s: &'a str, p: &str) -> (r: Option<&'a str>)
    ensures
        r is Some <==> begins(s@, p@),
        r matches Some(t) ==> t@ == s@.skip(p@.len() as int),
{
    if starts_with(s, p) {
        let n: usize = p.unicode_len();
        let len: usize = s.unicode_len();
        let t: &'a str = s.substring_char(n, len);
        assert(s@.subrange(n as int, len as int) =~= s@.skip(n as int));
        Some(t)
    } else {
        None
    }
}

/// What precedes the suffix `p`, when `s` ends with it.
pub fn strip_suffix<'a>(s: &'a str, p: &str) -> (r: Option<&'a str>)
    ensures
        r is Some <==> ends(s@, p@),
        r matches Some(t) ==> t@ == s@.take(s@.len() - p@.len()),
{
    if ends_with(s, p) {
        let n: usize = p.unicode_len();
        let len: usize = s.unicode_len();
        let t: &'a str = s.substring_char(0, len - n);
        assert(s@.subrange(0, len - n) =~= s@.take(len - n));
        Some(t)
    } else {
        None
    }
}

/// White space: the characters of the Unicode property of that name.
pub open spec fn is_space(c: char) -> bool {
    ||| '\u{9}' <= c <= '\u{d}'
    ||| c == ' '
    ||| c == '\u{85}'
    ||| c == '\u{a0}'
    ||| c == '\u{1680}'
    ||| '\u{2000}' <= c <= '\u{200a}'
    ||| c == '\u{2028}'
    ||| c == '\u{2029}'
    ||| c == '\u{202f}'
    ||| c == '\u{205f}'
    ||| c == '\u{3000}'
}

/// Where text is cut.
#[derive(Clone, Copy, Debug, PartialEq, Eq, Structural)]
pub enum Sep {
    Is(char),
    Space,
    /// Either slash.
    Slash,
}

/// `sep` cuts at `c`.
pub open spec fn cuts(sep: Sep, c: char) -> bool {
    match sep {
        Sep::Is(x) => c == x,
        Sep::Space => is_space(c),
        Sep::Slash => c == '/' || c == '\\',
    }
}

/// Whether `sep` cuts at `c`.
pub fn cut_here(sep: Sep, c: char) -> (r: bool)
    ensures
        r == cuts(sep, c),
{
    match sep {
        Sep::Is(x) => c == x,
        Sep::Space => ('\u{9}' <= c && c <= '\u{d}') || c == ' ' || c == '\u{85}' || c == '\u{a0}'
            || c == '\u{1680}' || ('\u{2000}' <= c && c <= '\u{200a}') || c == '\u{2028}' || c
            == '\u{2029}' || c == '\u{202f}' || c == '\u{205f}' || c == '\u{3000}',
        Sep::Slash => c == '/' || c == '\\',
    }
}

/// The first cut at or after `from`, or the length when there is none.
pub open spec fn next_cut(s: Seq<char>, sep: Sep, from: int) -> int
    decreases s.len() - from,
{
    if from >= s.len() {
        s.len() as int
    } else if cuts(sep, s[from]) {
        from
    } else {
        next_cut(s, sep, from + 1)
    }
}

/// The parts of `s` between the cuts: one more than there are cuts, in order.
pub open spec fn parts(s: Seq<char>, sep: Sep) -> Seq<Seq<char>> {
    parts_from(s, sep, 0)
}

pub open spec fn parts_from(s: Seq<char>, sep: Sep, from: int) -> Seq<Seq<char>>
    decreases s.len() - from,
    when 0 <= from <= s.len()
    via parts_from_shrinks
{
    let end = next_cut(s, sep, from);
    if end >= s.len() {
        seq![s.subrange(from, s.len() as int)]
    } else {
        seq![s.subrange(from, end)] + parts_from(s, sep, end + 1)
    }
}

#[via_fn]
proof fn parts_from_shrinks(s: Seq<char>, sep: Sep, from: int) {
    lemma_next_cut(s, sep, from);
}

/// A cut lies in range, cuts, and is the first to.
pub proof fn lemma_next_cut(s: Seq<char>, sep: Sep, from: int)
    requires
        0 <= from <= s.len(),
    ensures
        from <= next_cut(s, sep, from) <= s.len(),
        next_cut(s, sep, from) < s.len() ==> cuts(sep, s[next_cut(s, sep, from)]),
        forall|k: int| from <= k < next_cut(s, sep, from) ==> !cuts(sep, #[trigger] s[k]),
    decreases s.len() - from,
{
    if from < s.len() && !cuts(sep, s[from]) {
        lemma_next_cut(s, sep, from + 1);
    }
}

fn find_cut(v: &Vec<char>, sep: Sep, from: usize) -> (r: usize)
    requires
        from <= v@.len(),
    ensures
        r == next_cut(v@, sep, from as int),
        from <= r <= v@.len(),
{
    let mut i: usize = from;
    while i < v.len()
        invariant
            from <= i <= v@.len(),
            next_cut(v@, sep, from as int) == next_cut(v@, sep, i as int),
        decreases v@.len() - i,
    {
        if cut_here(sep, v[i]) {
            return i;
        }
        i = i + 1;
    }
    i
}

/// The contents of strings.
pub open spec fn views(v: Seq<&str>) -> Seq<Seq<char>> {
    v.map_values(|x: &str| x@)
}

/// The contents of owned strings.
pub open spec fn contents(v: Seq<String>) -> Seq<Seq<char>> {
    v.map_values(|x: String| x@)
}

/// Cuts `s` at every `sep`.
pub fn split<'a>(s: &'a str, sep: Sep) -> (out: Vec<&'a str>)
    ensures
        views(out@) == parts(s@, sep),
        out@.len() > 0,
{
    let v: Vec<char> = chars_of(s);
    let n: usize = v.len();
    let mut out: Vec<&'a str> = Vec::new();
    let mut from: usize = 0;
    proof {
        assert(views(out@) =~= Seq::<Seq<char>>::empty());
        assert(views(out@) + parts_from(s@, sep, 0) =~= parts(s@, sep));
    }
    loop
        invariant_except_break
            v@ == s@,
            n == v@.len(),
            from <= n,
            views(out@) + parts_from(s@, sep, from as int) == parts(s@, sep),
        ensures
            views(out@) == parts(s@, sep),
            out@.len() > 0,
        decreases n + 1 - from,
    {
        let end: usize = find_cut(&v, sep, from);
        let piece: &'a str = s.substring_char(from, end);
        let ghost before = out@;
        out.push(piece);
        proof {
            lemma_next_cut(s@, sep, from as int);
            assert(views(out@) =~= views(before).push(piece@));
        }
        if end >= n {
            proof {
                assert(parts_from(s@, sep, from as int) =~= seq![piece@]);
                assert(views(out@) =~= views(before) + seq![piece@]);
            }
            break;
        }
        proof {
            assert(views(out@) + parts_from(s@, sep, end + 1) =~= views(before) + (seq![piece@]
                + parts_from(s@, sep, end + 1)));
        }
        from = end + 1;
    }
    out
}

/// The parts that hold something.
pub open spec fn nonempty(p: Seq<Seq<char>>) -> Seq<Seq<char>> {
    p.filter(|x: Seq<char>| x.len() > 0)
}

/// The words of `s`: its parts between white space, without the empty ones.
pub open spec fn words(s: Seq<char>) -> Seq<Seq<char>> {
    nonempty(parts(s, Sep::Space))
}

/// The words of `s`.
pub fn split_words<'a>(s: &'a str) -> (out: Vec<&'a str>)
    ensures
        views(out@) == words(s@),
{
    let all: Vec<&'a str> = split(s, Sep::Space);
    let mut out: Vec<&'a str> = Vec::new();
    let mut i: usize = 0;
    proof {
        assert(views(all@).take(0) =~= Seq::<Seq<char>>::empty());
        reveal(Seq::filter);
        assert(views(out@) =~= Seq::<Seq<char>>::empty());
    }
    while i < all.len()
        invariant
            i <= all@.len(),
            views(out@) == nonempty(views(all@).take(i as int)),
        decreases all@.len() - i,
    {
        let w: &'a str = all[i];
        let ghost before = out@;
        proof {
            let a = views(all@);
            assert(a.take(i + 1).drop_last() =~= a.take(i as int));
            assert(a.take(i + 1).last() == w@);
            reveal(Seq::filter);
        }
        if !w.is_empty() {
            out.push(w);
            assert(views(out@) =~= views(before).push(w@));
        }
        i = i + 1;
    }
    proof {
        assert(views(all@).take(all@.len() as int) =~= views(all@));
    }
    out
}

/// `s` without the characters that cut at its front.
pub open spec fn trim_front(s: Seq<char>, sep: Sep) -> Seq<char>
    decreases s.len(),
{
    if s.len() > 0 && cuts(sep, s[0]) {
        trim_front(s.skip(1), sep)
    } else {
        s
    }
}

/// `s` without the characters that cut at its back.
pub open spec fn trim_back(s: Seq<char>, sep: Sep) -> Seq<char>
    decreases s.len(),
{
    if s.len() > 0 && cuts(sep, s.last()) {
        trim_back(s.drop_last(), sep)
    } else {
        s
    }
}

/// `s` without the characters that cut at either end.
pub open spec fn trimmed(s: Seq<char>, sep: Sep) -> Seq<char> {
    trim_back(trim_front(s, sep), sep)
}

/// Takes the characters that cut off both ends of `s`.
pub fn trim<'a>(s: &'a str, sep: Sep) -> (t: &'a str)
    ensures
        t@ == trimmed(s@, sep),
{
    let v: Vec<char> = chars_of(s);
    let n: usize = v.len();
    let mut i: usize = 0;
    assert(s@.skip(0) =~= s@);
    while i < n && cut_here(sep, v[i])
        invariant
            v@ == s@,
            n == v@.len(),
            i <= n,
            trim_front(s@, sep) == trim_front(s@.skip(i as int), sep),
        decreases n - i,
    {
        assert(s@.skip(i as int).skip(1) =~= s@.skip(i + 1));
        assert(s@.skip(i as int)[0] == s@[i as int]);
        i = i + 1;
    }
    let mut j: usize = n;
    proof {
        if i < n {
            assert(s@.skip(i as int)[0] == s@[i as int]);
        }
        assert(s@.subrange(i as int, j as int) =~= s@.skip(i as int));
    }
    while j > i && cut_here(sep, v[j - 1])
        invariant
            v@ == s@,
            n == v@.len(),
            i <= j <= n,
            trim_front(s@, sep) == s@.skip(i as int),
            trim_back(s@.skip(i as int), sep) == trim_back(s@.subrange(i as int, j as int), sep),
        decreases j - i,
    {
        assert(s@.subrange(i as int, j as int).drop_last() =~= s@.subrange(i as int, j - 1));
        assert(s@.subrange(i as int, j as int).last() == s@[j - 1]);
        j = j - 1;
    }
    proof {
        if j > i {
            assert(s@.subrange(i as int, j as int).last() == s@[j - 1]);
        }
    }
    s.substring_char(i, j)
}

/// Takes the characters that cut off the back of `s`.
pub fn trim_end<'a>(s: &'a str, sep: Sep) -> (t: &'a str)
    ensures
        t@ == trim_back(s@, sep),
{
    let v: Vec<char> = chars_of(s);
    let mut j: usize = v.len();
    assert(s@.take(j as int) =~= s@);
    while j > 0 && cut_here(sep, v[j - 1])
        invariant
            v@ == s@,
            j <= v@.len(),
            trim_back(s@, sep) == trim_back(s@.take(j as int), sep),
        decreases j,
    {
        assert(s@.take(j as int).drop_last() =~= s@.take(j - 1));
        assert(s@.take(j as int).last() == s@[j - 1]);
        j = j - 1;
    }
    proof {
        if j > 0 {
            assert(s@.take(j as int).last() == s@[j - 1]);
        }
        assert(s@.subrange(0, j as int) =~= s@.take(j as int));
    }
    s.substring_char(0, j)
}

/// `c` in lower case, if it is an ASCII letter.
pub open spec fn lower_char(c: char) -> char {
    if 'A' <= c <= 'Z' {
        ((c as u8) + 32) as char
    } else {
        c
    }
}

/// ASCII letters in lower case, everything else as it is.
pub open spec fn lower(s: Seq<char>) -> Seq<char> {
    s.map_values(|c: char| lower_char(c))
}

/// `c` in lower case.
pub fn to_lower_char(c: char) -> (r: char)
    ensures
        r == lower_char(c),
{
    if 'A' <= c && c <= 'Z' {
        (c as u8 + 32) as char
    } else {
        c
    }
}

/// `s` with its ASCII letters in lower case.
pub fn to_lower(s: &str) -> (r: String)
    ensures
        r@ == lower(s@),
{
    let v: Vec<char> = chars_of(s);
    let mut r: String = String::new();
    let mut i: usize = 0;
    while i < v.len()
        invariant
            i <= v@.len(),
            v@ == s@,
            r@ == lower(s@.take(i as int)),
        decreases v@.len() - i,
    {
        r.push(to_lower_char(v[i]));
        i = i + 1;
        assert(r@ =~= lower(s@.take(i as int)));
    }
    assert(s@.take(i as int) =~= s@);
    r
}

/// Both strings are the same up to the case of ASCII letters.
pub open spec fn like(a: Seq<char>, b: Seq<char>) -> bool {
    lower(a) == lower(b)
}

/// Whether both strings are the same up to the case of ASCII letters.
pub fn same_ignoring_case(a: &str, b: &str) -> (r: bool)
    ensures
        r == like(a@, b@),
{
    let x: String = to_lower(a);
    let y: String = to_lower(b);
    x == y
}

/// The digit of a character.
pub open spec fn digit_of(c: char) -> nat {
    (c as u8 - '0' as u8) as nat
}

pub open spec fn is_digit(c: char) -> bool {
    '0' <= c <= '9'
}

/// Only digits, and at least one.
pub open spec fn all_digits(s: Seq<char>) -> bool {
    s.len() > 0 && forall|i: int| 0 <= i < s.len() ==> is_digit(#[trigger] s[i])
}

/// The number written in decimal digits.
pub open spec fn number(s: Seq<char>) -> nat
    decreases s.len(),
{
    if s.len() == 0 {
        0
    } else {
        number(s.drop_last()) * 10 + digit_of(s.last())
    }
}

/// What follows a leading plus sign.
pub open spec fn unsigned_digits(s: Seq<char>) -> Seq<char> {
    if s.len() > 0 && s[0] == '+' {
        s.skip(1)
    } else {
        s
    }
}

/// The unsigned number `s` stands for, up to `max`: decimal digits after an optional plus sign.
pub open spec fn parsed(s: Seq<char>, max: nat) -> Option<nat> {
    let d = unsigned_digits(s);
    if all_digits(d) && number(d) <= max {
        Some(number(d))
    } else {
        None
    }
}

proof fn lemma_number_grows(s: Seq<char>, k: int)
    requires
        0 <= k <= s.len(),
    ensures
        number(s.take(k)) <= number(s),
    decreases s.len() - k,
{
    if k < s.len() {
        lemma_number_grows(s, k + 1);
        assert(s.take(k + 1).drop_last() =~= s.take(k));
    } else {
        assert(s.take(k) =~= s);
    }
}

/// Reads an unsigned number that fits a `u64`.
pub fn parse_u64(s: &str) -> (r: Option<u64>)
    ensures
        r == match parsed(s@, u64::MAX as nat) {
            Some(n) => Some(n as u64),
            None => None,
        },
{
    let v: Vec<char> = chars_of(s);
    let from: usize = if v.len() > 0 && v[0] == '+' {
        1
    } else {
        0
    };
    let ghost d = unsigned_digits(s@);
    assert(d =~= s@.skip(from as int));
    if v.len() == from {
        return None;
    }
    let mut value: u64 = 0;
    let mut i: usize = from;
    assert(d.take(0) =~= Seq::<char>::empty());
    while i < v.len()
        invariant
            from <= i <= v@.len(),
            v@ == s@,
            d == s@.skip(from as int),
            d == unsigned_digits(s@),
            d.len() > 0,
            forall|k: int| 0 <= k < i - from ==> is_digit(#[trigger] d[k]),
            value == number(d.take(i - from)),
        decreases v@.len() - i,
    {
        let c: char = v[i];
        assert(c == d[i - from]);
        if !('0' <= c && c <= '9') {
            return None;
        }
        let x: u64 = (c as u8 - '0' as u8) as u64;
        proof {
            assert(d.take(i - from + 1).drop_last() =~= d.take(i - from));
            lemma_number_grows(d, i - from + 1);
        }
        match value.checked_mul(10) {
            Some(tens) => match tens.checked_add(x) {
                Some(n) => {
                    value = n;
                },
                None => {
                    return None;
                },
            },
            None => {
                return None;
            },
        }
        i = i + 1;
    }
    assert(d.take(i - from) =~= d);
    Some(value)
}

/// Reads an unsigned number that fits a `u32`.
pub fn parse_u32(s: &str) -> (r: Option<u32>)
    ensures
        r == match parsed(s@, u32::MAX as nat) {
            Some(n) => Some(n as u32),
            None => None,
        },
{
    match parse_u64(s) {
        Some(n) => if n <= u32::MAX as u64 {
            Some(n as u32)
        } else {
            None
        },
        None => None,
    }
}

/// The digit character of a number under ten.
pub open spec fn digit_char(d: nat) -> char {
    (('0' as u8) + d as u8) as char
}

/// A number in decimal, without leading zeros.
pub open spec fn decimal(n: nat) -> Seq<char>
    decreases n,
{
    if n < 10 {
        seq![digit_char(n)]
    } else {
        decimal(n / 10).push(digit_char(n % 10))
    }
}

proof fn lemma_decimal(n: nat)
    ensures
        all_digits(decimal(n)),
        number(decimal(n)) == n,
    decreases n,
{
    let s = decimal(n);
    if n < 10 {
        assert(s.drop_last() =~= Seq::<char>::empty());
        assert(s.last() == digit_char(n));
        assert(number(Seq::<char>::empty()) == 0);
        assert(digit_of(s.last()) == n);
        assert(number(s) == number(s.drop_last()) * 10 + digit_of(s.last()));
    } else {
        lemma_decimal(n / 10);
        assert(s.drop_last() =~= decimal(n / 10));
        assert(s.last() == digit_char(n % 10));
    }
}

/// A number written in decimal reads back as itself.
pub proof fn a_written_number_reads_back(n: nat, max: nat)
    requires
        n <= max,
    ensures
        parsed(decimal(n), max) == Some(n),
{
    lemma_decimal(n);
    assert(is_digit(decimal(n)[0]));
}

/// Writes a number in decimal.
pub fn decimal_u64(n: u64) -> (s: String)
    ensures
        s@ == decimal(n as nat),
    decreases n,
{
    let digit: char = ('0' as u8 + (n % 10) as u8) as char;
    if n < 10 {
        let mut s: String = String::new();
        s.push(digit);
        assert(s@ =~= seq![digit_char(n as nat)]);
        s
    } else {
        let mut s: String = decimal_u64(n / 10);
        s.push(digit);
        s
    }
}

/// A signed number in decimal.
pub open spec fn decimal_int(n: int) -> Seq<char> {
    if n < 0 {
        seq!['-'] + decimal((-n) as nat)
    } else {
        decimal(n as nat)
    }
}

/// Writes a signed number in decimal.
pub fn decimal_i32(n: i32) -> (s: String)
    ensures
        s@ == decimal_int(n as int),
{
    if n < 0 {
        let mut s: String = String::new();
        s.push('-');
        let mag: u64 = (-(n as i64)) as u64;
        let d: String = decimal_u64(mag);
        s.append(d.as_str());
        assert(s@ =~= seq!['-'] + decimal((-n) as nat));
        s
    } else {
        decimal_u64(n as u64)
    }
}

/// The texts with `sep` between each two.
pub open spec fn joined(parts: Seq<Seq<char>>, sep: Seq<char>) -> Seq<char>
    decreases parts.len(),
{
    if parts.len() == 0 {
        Seq::empty()
    } else if parts.len() == 1 {
        parts[0]
    } else {
        joined(parts.drop_last(), sep) + sep + parts.last()
    }
}

/// Joins texts with `sep` between each two.
pub fn join(parts: &Vec<String>, sep: &str) -> (s: String)
    ensures
        s@ == joined(contents(parts@), sep@),
{
    let mut s: String = String::new();
    let mut i: usize = 0;
    assert(contents(parts@).take(0) =~= Seq::<Seq<char>>::empty());
    while i < parts.len()
        invariant
            i <= parts@.len(),
            s@ == joined(contents(parts@).take(i as int), sep@),
        decreases parts@.len() - i,
    {
        let ghost c = contents(parts@);
        if i > 0 {
            s.append(sep);
        }
        s.append(parts[i].as_str());
        proof {
            assert(c.take(i + 1).drop_last() =~= c.take(i as int));
            assert(c.take(i + 1).last() == c[i as int]);
            if i == 0 {
                assert(s@ =~= c[0]);
            }
        }
        i = i + 1;
    }
    assert(contents(parts@).take(i as int) =~= contents(parts@));
    s
}

/// `s` before and after its first `c`, when it has one.
pub fn split_once<'a>(s: &'a str, c: char) -> (r: Option<(&'a str, &'a str)>)
    ensures
        r is Some <==> next_cut(s@, Sep::Is(c), 0) < s@.len(),
        r matches Some(p) ==> {
            let i = next_cut(s@, Sep::Is(c), 0);
            p.0@ == s@.take(i) && p.1@ == s@.skip(i + 1)
        },
{
    let v: Vec<char> = chars_of(s);
    let i: usize = find_cut(&v, Sep::Is(c), 0);
    let n: usize = v.len();
    if i >= n {
        return None;
    }
    let a: &'a str = s.substring_char(0, i);
    let b: &'a str = s.substring_char(i + 1, n);
    assert(a@ =~= s@.take(i as int));
    assert(b@ =~= s@.skip(i + 1));
    Some((a, b))
}

/// `s` with every `from` turned into `to`, from the front, none of them overlapping.
pub open spec fn replaced(s: Seq<char>, from: Seq<char>, to: Seq<char>) -> Seq<char>
    decreases s.len(),
{
    if from.len() == 0 || s.len() == 0 {
        s
    } else if begins(s, from) {
        to + replaced(s.skip(from.len() as int), from, to)
    } else {
        seq![s[0]] + replaced(s.skip(1), from, to)
    }
}

/// Turns every `from` into `to`.
pub fn replace(s: &str, from: &str, to: &str) -> (r: String)
    ensures
        r@ == replaced(s@, from@, to@),
{
    let sv: Vec<char> = chars_of(s);
    let fv: Vec<char> = chars_of(from);
    if fv.len() == 0 {
        return s.to_owned();
    }
    let n: usize = sv.len();
    let mut r: String = String::new();
    let mut i: usize = 0;
    assert(s@.skip(0) =~= s@);
    assert(r@ + replaced(s@.skip(0), from@, to@) =~= replaced(s@, from@, to@));
    while i < n
        invariant
            sv@ == s@,
            fv@ == from@,
            fv@.len() > 0,
            n == sv@.len(),
            i <= n,
            r@ + replaced(s@.skip(i as int), from@, to@) == replaced(s@, from@, to@),
        decreases n - i,
    {
        let ghost rest = s@.skip(i as int);
        let ghost before = r@;
        let fits: bool = fv.len() <= n - i;
        if fits && matches_at(&sv, i, &fv) {
            proof {
                assert(rest.take(from@.len() as int) =~= s@.subrange(i as int, i + from@.len()));
                assert(rest.skip(from@.len() as int) =~= s@.skip(i + from@.len()));
            }
            r.append(to);
            i = i + fv.len();
            assert(r@ + replaced(s@.skip(i as int), from@, to@) =~= before + (to@ + replaced(
                s@.skip(i as int),
                from@,
                to@,
            )));
        } else {
            proof {
                if begins(rest, from@) {
                    assert(rest.take(from@.len() as int) =~= s@.subrange(
                        i as int,
                        i + from@.len(),
                    ));
                }
                assert(rest[0] == sv@[i as int]);
                assert(rest.skip(1) =~= s@.skip(i + 1));
            }
            r.push(sv[i]);
            i = i + 1;
            assert(r@ + replaced(s@.skip(i as int), from@, to@) =~= before + (seq![rest[0]]
                + replaced(s@.skip(i as int), from@, to@)));
        }
    }
    assert(s@.skip(i as int) =~= Seq::<char>::empty());
    assert(r@ + Seq::<char>::empty() =~= r@);
    r
}

/// The first text at or after `k` that begins with `p`; the length when there is none.
pub open spec fn first_with(list: Seq<Seq<char>>, p: Seq<char>, k: int) -> int
    decreases list.len() - k,
{
    if k >= list.len() || k < 0 {
        list.len() as int
    } else if begins(list[k], p) {
        k
    } else {
        first_with(list, p, k + 1)
    }
}

/// Finds the first text that begins with `p`.
pub fn find_with(list: &Vec<String>, p: &str) -> (i: usize)
    ensures
        i == first_with(contents(list@), p@, 0),
        i <= list@.len(),
        i < list@.len() ==> begins(list@[i as int]@, p@),
{
    let ghost c = contents(list@);
    let mut i: usize = 0;
    while i < list.len()
        invariant
            i <= list@.len(),
            c == contents(list@),
            first_with(c, p@, 0) == first_with(c, p@, i as int),
        decreases list@.len() - i,
    {
        assert(c[i as int] == list@[i as int]@);
        if starts_with(list[i].as_str(), p) {
            return i;
        }
        i = i + 1;
    }
    i
}

/// Copies texts.
pub fn copied(v: &Vec<String>) -> (out: Vec<String>)
    ensures
        contents(out@) == contents(v@),
{
    let mut out: Vec<String> = Vec::new();
    let mut i: usize = 0;
    while i < v.len()
        invariant
            i <= v@.len(),
            out@.len() == i,
            forall|k: int| 0 <= k < i ==> (#[trigger] out@[k])@ == v@[k]@,
        decreases v@.len() - i,
    {
        out.push(v[i].clone());
        i = i + 1;
    }
    assert(contents(out@) =~= contents(v@));
    out
}

/// Whether a text stands among others.
pub fn among(v: &Vec<String>, s: &str) -> (r: bool)
    ensures
        r == contents(v@).contains(s@),
{
    let ghost c = contents(v@);
    let mut i: usize = 0;
    while i < v.len()
        invariant
            i <= v@.len(),
            c == contents(v@),
            forall|k: int| 0 <= k < i ==> #[trigger] c[k] != s@,
        decreases v@.len() - i,
    {
        assert(c[i as int] == v@[i as int]@);
        if same(v[i].as_str(), s) {
            assert(i < c.len());
            assert(c.contains(s@));
            return true;
        }
        i = i + 1;
    }
    assert(c.len() == v@.len());
    false
}

/// No texts.
pub fn no_texts() -> (v: Vec<String>)
    ensures
        contents(v@) == Seq::<Seq<char>>::empty(),
{
    let v: Vec<String> = Vec::new();
    assert(contents(v@) =~= Seq::<Seq<char>>::empty());
    v
}

/// Texts and one more.
pub fn with_text(v: Vec<String>, s: &str) -> (out: Vec<String>)
    ensures
        contents(out@) == contents(v@).push(s@),
{
    let ghost before = v@;
    let mut out: Vec<String> = v;
    let owned: String = s.to_owned();
    out.push(owned);
    assert(contents(out@) =~= contents(before).push(s@));
    out
}

/// The lines of `s`: its parts between line feeds, a carriage return before the line feed taken
/// off, and no empty last line.
pub open spec fn lines_of(s: Seq<char>) -> Seq<Seq<char>> {
    let p = parts(s, Sep::Is('\n'));
    let ended = p.drop_last().map_values(|l: Seq<char>| without_cr(l));
    if p.last().len() == 0 {
        ended
    } else {
        ended.push(p.last())
    }
}

/// A line without the carriage return at its end.
pub open spec fn without_cr(l: Seq<char>) -> Seq<char> {
    if l.len() > 0 && l.last() == '\r' {
        l.drop_last()
    } else {
        l
    }
}

fn strip_cr<'a>(l: &'a str) -> (r: &'a str)
    ensures
        r@ == without_cr(l@),
{
    let v: Vec<char> = chars_of(l);
    let n: usize = v.len();
    if n > 0 && v[n - 1] == '\r' {
        let r: &'a str = l.substring_char(0, n - 1);
        assert(r@ =~= l@.drop_last());
        r
    } else {
        l
    }
}

/// The lines of `s`.
pub fn lines<'a>(s: &'a str) -> (out: Vec<&'a str>)
    ensures
        views(out@) == lines_of(s@),
{
    let all: Vec<&'a str> = split(s, Sep::Is('\n'));
    let ghost p = views(all@);
    let mut out: Vec<&'a str> = Vec::new();
    let last: usize = all.len() - 1;
    let mut i: usize = 0;
    let ghost clean = |l: Seq<char>| without_cr(l);
    while i < last
        invariant
            p == views(all@),
            last == all@.len() - 1,
            i <= last,
            clean == (|l: Seq<char>| without_cr(l)),
            views(out@) == p.take(i as int).map_values(clean),
        decreases last - i,
    {
        let ghost before = out@;
        let l: &'a str = strip_cr(all[i]);
        out.push(l);
        i = i + 1;
        assert(views(out@) =~= views(before).push(l@));
        assert(views(out@) =~= p.take(i as int).map_values(clean));
    }
    assert(p.take(i as int) =~= p.drop_last());
    let tail: &'a str = all[last];
    if !tail.is_empty() {
        let ghost before = out@;
        out.push(tail);
        assert(views(out@) =~= views(before).push(tail@));
    }
    out
}

/// A number on a line of its own is what a trim leaves.
pub proof fn a_number_is_left_by_a_trim(n: nat)
    ensures
        trimmed(decimal(n) + seq!['\n'], Sep::Space) == decimal(n),
{
    lemma_decimal(n);
    let d = decimal(n);
    let s = d + seq!['\n'];
    assert(is_digit(d[0]) && s[0] == d[0]);
    assert(trim_front(s, Sep::Space) == s);
    assert(s.last() == '\n');
    assert(s.drop_last() =~= d);
    assert(is_digit(d[d.len() - 1]));
    assert(trim_back(d, Sep::Space) == d);
}

/// A text that begins with another is that one and what is left when it is stripped; one that
/// ends with another is what is left and that one.
pub proof fn what_is_stripped_can_be_put_back(
    s: &str,
    p: &str,
    front: Option<&str>,
    back: Option<&str>,
    head: bool,
    tail: bool,
)
    requires
        call_ensures(strip_prefix, (s, p), front),
        call_ensures(strip_suffix, (s, p), back),
        call_ensures(starts_with, (s, p), head),
        call_ensures(ends_with, (s, p), tail),
    ensures
        front matches Some(t) ==> s@ == p@ + t@,
        back matches Some(t) ==> s@ == t@ + p@,
        front is Some <==> head,
        back is Some <==> tail,
        forall|t: Seq<char>| #[trigger] (p@ + t) == s@ ==> head,
        forall|t: Seq<char>| #[trigger] (t + p@) == s@ ==> tail,
{
    if let Some(t) = front {
        assert(s@ =~= s@.take(p@.len() as int) + t@);
    }
    if let Some(t) = back {
        assert(s@ =~= t@ + s@.skip(s@.len() - p@.len()));
    }
    assert forall|t: Seq<char>| #[trigger] (p@ + t) == s@ implies head by {
        assert((p@ + t).take(p@.len() as int) =~= p@);
    }
    assert forall|t: Seq<char>| #[trigger] (t + p@) == s@ implies tail by {
        assert((t + p@).skip(t.len() as int) =~= p@);
    }
}

/// A text stands in another exactly where that one is something, the text and something more.
pub proof fn a_text_stands_where_it_was_put(s: &str, p: &str, r: bool)
    requires
        call_ensures(contains, (s, p), r),
    ensures
        r ==> exists|a: Seq<char>, b: Seq<char>| #[trigger] (a + p@ + b) == s@,
        forall|a: Seq<char>, b: Seq<char>| #[trigger] (a + p@ + b) == s@ ==> r,
{
    if r {
        let i = choose|i: int|
            0 <= i && i + p@.len() <= s@.len() && #[trigger] s@.subrange(i, i + p@.len()) == p@;
        assert(s@.take(i) + p@ + s@.skip(i + p@.len()) =~= s@);
    }
    assert forall|a: Seq<char>, b: Seq<char>| #[trigger] (a + p@ + b) == s@ implies r by {
        let i = a.len() as int;
        assert(s@.subrange(i, i + p@.len()) =~= p@);
    }
}

/// The order of texts is strict and total: of two different ones exactly one stands before the
/// other, and none before itself.
pub proof fn texts_are_ordered(a: &str, b: &str, ab: bool, ba: bool)
    requires
        call_ensures(text_before, (a, b), ab),
        call_ensures(text_before, (b, a), ba),
    ensures
        !(ab && ba),
        a@ == b@ ==> !ab,
        a@ != b@ ==> ab || ba,
        a@.len() > 0 && b@.len() > 0 && a@[0] < b@[0] ==> ab,
        a@.len() == 0 && b@.len() > 0 ==> ab,
        b@.len() == 0 ==> !ab,
{
    lemma_order(a@, b@);
}

proof fn lemma_order(a: Seq<char>, b: Seq<char>)
    ensures
        !(precedes(a, b) && precedes(b, a)),
        a == b ==> !precedes(a, b),
        a != b ==> precedes(a, b) || precedes(b, a),
    decreases a.len(),
{
    if a.len() > 0 && b.len() > 0 {
        lemma_order(a.skip(1), b.skip(1));
        if a[0] == b[0] && a.skip(1) == b.skip(1) {
            assert(a =~= seq![a[0]] + a.skip(1));
            assert(b =~= seq![b[0]] + b.skip(1));
        }
    } else {
        if a.len() == 0 && b.len() == 0 {
            assert(a =~= b);
        }
    }
}

/// The parts of a text, put together again with the separator between them, are the text, and no
/// part holds the separator.
pub proof fn parts_make_the_text(s: &str, c: char, out: Vec<&str>)
    requires
        call_ensures(split, (s, Sep::Is(c)), out),
    ensures
        joined(views(out@), seq![c]) == s@,
        forall|i: int, k: int|
            0 <= i < out@.len() && 0 <= k < out@[i]@.len() ==> #[trigger] out@[i]@[k] != c,
{
    lemma_parts(s@, c, 0);
    assert(s@.subrange(0, s@.len() as int) =~= s@);
    let p = parts(s@, Sep::Is(c));
    assert(p.len() == out@.len());
    assert forall|i: int, k: int|
        0 <= i < out@.len() && 0 <= k < out@[i]@.len() implies #[trigger] out@[i]@[k] != c by {
        assert(p[i] == out@[i]@);
        assert(p[i][k] != c);
    }
}

proof fn lemma_parts(s: Seq<char>, c: char, from: int)
    requires
        0 <= from <= s.len(),
    ensures
        parts_from(s, Sep::Is(c), from).len() > 0,
        joined(parts_from(s, Sep::Is(c), from), seq![c]) == s.subrange(from, s.len() as int),
        forall|i: int, k: int|
            0 <= i < parts_from(s, Sep::Is(c), from).len() && 0 <= k < parts_from(
                s,
                Sep::Is(c),
                from,
            )[i].len() ==> #[trigger] parts_from(s, Sep::Is(c), from)[i][k] != c,
    decreases s.len() - from,
{
    let sep = Sep::Is(c);
    lemma_next_cut(s, sep, from);
    let end = next_cut(s, sep, from);
    let all = parts_from(s, sep, from);
    let head = s.subrange(from, end);
    assert forall|k: int| 0 <= k < head.len() implies #[trigger] head[k] != c by {
        assert(!cuts(sep, s[from + k]));
    }
    if end < s.len() {
        let rest = parts_from(s, sep, end + 1);
        lemma_parts(s, c, end + 1);
        lemma_joined_front(head, rest, seq![c]);
        assert(head + seq![c] + s.subrange(end + 1, s.len() as int) =~= s.subrange(
            from,
            s.len() as int,
        ));
        assert forall|i: int, k: int| 0 <= i < all.len() && 0 <= k < all[i].len() implies
            #[trigger] all[i][k] != c by {
            if i > 0 {
                assert(all[i] == rest[i - 1]);
                assert(rest[i - 1][k] != c);
            } else {
                assert(all[0] == head);
                assert(head[k] != c);
            }
        }
    } else {
        assert(all[0] == head);
        assert forall|i: int, k: int| 0 <= i < all.len() && 0 <= k < all[i].len() implies
            #[trigger] all[i][k] != c by {
            assert(head[k] != c);
        }
    }
}

proof fn lemma_joined_front(head: Seq<char>, rest: Seq<Seq<char>>, sep: Seq<char>)
    requires
        rest.len() > 0,
    ensures
        joined(seq![head] + rest, sep) == head + sep + joined(rest, sep),
    decreases rest.len(),
{
    let all = seq![head] + rest;
    if rest.len() == 1 {
        assert(all.drop_last() =~= seq![head]);
        assert(joined(seq![head], sep) == head);
        assert(joined(rest, sep) == rest[0]);
        assert(all.last() == rest[0]);
    } else {
        lemma_joined_front(head, rest.drop_last(), sep);
        assert(all.drop_last() =~= seq![head] + rest.drop_last());
        assert(all.last() == rest.last());
        assert((head + sep + joined(rest.drop_last(), sep)) + sep + rest.last() =~= head + sep + (
        joined(rest.drop_last(), sep) + sep + rest.last()));
    }
}

/// A word is a part between blanks that is not empty, and every such part is a word.
pub proof fn a_word_holds_something(s: &str, out: Vec<&str>)
    requires
        call_ensures(split_words, (s,), out),
    ensures
        forall|i: int| 0 <= i < out@.len() ==> (#[trigger] out@[i])@.len() > 0,
        forall|i: int| 0 <= i < out@.len() ==> parts(s@, Sep::Space).contains((#[trigger] out@[i])@),
        forall|w: Seq<char>|
            w.len() > 0 && parts(s@, Sep::Space).contains(w) ==> #[trigger] views(out@).contains(w),
{
    let p = parts(s@, Sep::Space);
    let f = |x: Seq<char>| x.len() > 0;
    assert(words(s@).len() == out@.len());
    assert forall|i: int| 0 <= i < out@.len() implies (#[trigger] out@[i])@.len() > 0 && p.contains(
        out@[i]@,
    ) by {
        assert(words(s@)[i] == out@[i]@);
        p.lemma_filter_pred(f, i);
        assert(f(p.filter(f)[i]));
        assert(p.filter(f).contains(p.filter(f)[i]));
        p.lemma_filter_contains_rev(f, p.filter(f)[i]);
    }
    assert forall|w: Seq<char>| w.len() > 0 && p.contains(w) implies #[trigger] views(
        out@,
    ).contains(w) by {
        let i = choose|i: int| 0 <= i < p.len() && p[i] == w;
        p.lemma_filter_contains(f, i);
    }
}

/// A trim takes off only what cuts, and leaves nothing that cuts at either end.
pub proof fn a_trim_leaves_the_middle(s: &str, sep: Sep, t: &str)
    requires
        call_ensures(trim, (s, sep), t),
    ensures
        t@.len() > 0 ==> !cuts(sep, t@[0]) && !cuts(sep, t@.last()),
        exists|i: int, j: int|
            0 <= i <= j <= s@.len() && #[trigger] s@.subrange(i, j) == t@ && (forall|k: int|
                0 <= k < i ==> cuts(sep, #[trigger] s@[k])) && (forall|k: int|
                j <= k < s@.len() ==> cuts(sep, #[trigger] s@[k])),
{
    lemma_trim_front(s@, sep);
    let f = trim_front(s@, sep);
    let i = s@.len() - f.len();
    lemma_trim_back(f, sep);
    let j = i + t@.len();
    assert(s@.subrange(i, j) =~= t@) by {
        assert forall|k: int| 0 <= k < t@.len() implies s@.subrange(i, j)[k] == t@[k] by {
            assert(f[k] == s@[i + k]);
        }
    }
    assert forall|k: int| j <= k < s@.len() implies cuts(sep, #[trigger] s@[k]) by {
        assert(f[k - i] == s@[k]);
    }
}

proof fn lemma_trim_front(s: Seq<char>, sep: Sep)
    ensures
        trim_front(s, sep).len() <= s.len(),
        trim_front(s, sep) == s.skip(s.len() - trim_front(s, sep).len()),
        forall|k: int|
            0 <= k < s.len() - trim_front(s, sep).len() ==> cuts(sep, #[trigger] s[k]),
        trim_front(s, sep).len() > 0 ==> !cuts(sep, trim_front(s, sep)[0]),
    decreases s.len(),
{
    if s.len() > 0 && cuts(sep, s[0]) {
        let d = s.skip(1);
        lemma_trim_front(d, sep);
        let n = trim_front(s, sep).len();
        assert(d.skip(d.len() - n) =~= s.skip(s.len() - n));
        assert forall|k: int| 0 <= k < s.len() - n implies cuts(sep, #[trigger] s[k]) by {
            if k > 0 {
                assert(d[k - 1] == s[k]);
            }
        }
    } else {
        assert(s.skip(0) =~= s);
    }
}

proof fn lemma_trim_back(s: Seq<char>, sep: Sep)
    ensures
        trim_back(s, sep).len() <= s.len(),
        trim_back(s, sep) == s.take(trim_back(s, sep).len() as int),
        forall|k: int| trim_back(s, sep).len() <= k < s.len() ==> cuts(sep, #[trigger] s[k]),
        trim_back(s, sep).len() > 0 ==> !cuts(sep, trim_back(s, sep).last()),
    decreases s.len(),
{
    if s.len() > 0 && cuts(sep, s.last()) {
        let d = s.drop_last();
        lemma_trim_back(d, sep);
        let n = trim_back(s, sep).len() as int;
        assert(d.take(n) =~= s.take(n));
        assert forall|k: int| n <= k < s.len() implies cuts(sep, #[trigger] s[k]) by {
            if k < d.len() {
                assert(d[k] == s[k]);
            }
        }
    } else {
        assert(s.take(s.len() as int) =~= s);
    }
}

/// A trim of the back takes off only what cuts there, and keeps all that stands before.
pub proof fn a_trim_of_the_back_keeps_the_front(s: &str, sep: Sep, t: &str)
    requires
        call_ensures(trim_end, (s, sep), t),
    ensures
        begins(s@, t@),
        t@.len() > 0 ==> !cuts(sep, t@.last()),
        forall|k: int| t@.len() <= k < s@.len() ==> cuts(sep, #[trigger] s@[k]),
{
    lemma_trim_back(s@, sep);
}

/// Where text is cut is what the separator says: one character, blanks and line ends, or either
/// slash.
pub proof fn a_separator_cuts_at_its_characters(x: char, c: char, is: bool, blank: bool, slash: bool)
    requires
        call_ensures(cut_here, (Sep::Is(x), c), is),
        call_ensures(cut_here, (Sep::Space, c), blank),
        call_ensures(cut_here, (Sep::Slash, c), slash),
    ensures
        is <==> c == x,
        slash <==> c == '/' || c == '\\',
        c == ' ' || c == '\t' || c == '\n' || c == '\r' ==> blank,
        '!' <= c <= '~' ==> !blank,
{
}

/// Lower case keeps the length and every character but `A` to `Z`, which move by one step of the
/// alphabet's two halves; texts that differ only so are alike, and no others.
pub proof fn lower_case_moves_capitals_only(s: &str, r: String, b: &str, t: String, same: bool)
    requires
        call_ensures(to_lower, (s,), r),
        call_ensures(to_lower, (b,), t),
        call_ensures(same_ignoring_case, (s, b), same),
    ensures
        r@.len() == s@.len(),
        forall|i: int|
            0 <= i < s@.len() ==> if 'A' <= #[trigger] s@[i] <= 'Z' {
                r@[i] as int == s@[i] as int + 32
            } else {
                r@[i] == s@[i]
            },
        same <==> r@ == t@,
{
    assert forall|i: int| 0 <= i < s@.len() implies if 'A' <= #[trigger] s@[i] <= 'Z' {
        r@[i] as int == s@[i] as int + 32
    } else {
        r@[i] == s@[i]
    } by {
        assert(r@[i] == lower_char(s@[i]));
    }
}

/// A number that was written reads back, through either width that holds it; digits and an
/// optional plus are all that is read.
pub proof fn numbers_read_back(n: u64, s: String, t: &str, wide: Option<u64>, narrow: Option<u32>)
    requires
        call_ensures(decimal_u64, (n,), s),
        t@ == s@,
        call_ensures(parse_u64, (t,), wide),
        call_ensures(parse_u32, (t,), narrow),
    ensures
        wide == Some(n),
        narrow is Some <==> n <= u32::MAX,
        narrow matches Some(m) ==> m == n,
        forall|i: int| 0 <= i < s@.len() ==> '0' <= #[trigger] s@[i] <= '9',
        n < 10 ==> s@.len() == 1,
        n >= 10 ==> s@[0] != '0',
{
    a_written_number_reads_back(n as nat, u64::MAX as nat);
    lemma_decimal(n as nat);
    assert(is_digit(s@[0]));
    if n <= u32::MAX {
        a_written_number_reads_back(n as nat, u32::MAX as nat);
    }
    assert forall|i: int| 0 <= i < s@.len() implies '0' <= #[trigger] s@[i] <= '9' by {
        assert(is_digit(s@[i]));
    }
    lemma_no_leading_zero(n as nat);
}

proof fn lemma_no_leading_zero(n: nat)
    ensures
        n > 0 ==> decimal(n)[0] != '0',
        decimal(n).len() > 0,
    decreases n,
{
    if n >= 10 {
        lemma_no_leading_zero(n / 10);
    }
}

/// What is not a number is not read as one.
pub proof fn only_digits_are_read(s: &str, r: Option<u64>, i: int)
    requires
        call_ensures(parse_u64, (s,), r),
        s@.len() == 0 || 0 <= i < s@.len() && !('0' <= s@[i] <= '9') && !(i == 0 && s@[0] == '+'),
    ensures
        r is None,
{
    let d = unsigned_digits(s@);
    if s@.len() > 0 {
        let k = if s@[0] == '+' {
            i - 1
        } else {
            i
        };
        assert(d[k] == s@[i]);
        assert(!is_digit(d[k]));
    }
}

/// One more digit behind a number is ten times it and the digit.
pub proof fn a_digit_behind_is_ten_times(s: &str, t: &str, c: char, a: Option<u64>, b: Option<u64>)
    requires
        '0' <= c <= '9',
        t@ == s@.push(c),
        call_ensures(parse_u64, (s,), a),
        call_ensures(parse_u64, (t,), b),
        a is Some,
    ensures
        b matches Some(n) ==> n == a->0 * 10 + (c as int - '0' as int),
        b is None ==> a->0 * 10 + (c as int - '0' as int) > u64::MAX,
{
    let d = unsigned_digits(s@);
    let e = unsigned_digits(t@);
    assert(e =~= d.push(c));
    assert(e.drop_last() =~= d);
    assert forall|i: int| 0 <= i < e.len() implies is_digit(#[trigger] e[i]) by {
        if i < d.len() {
            assert(is_digit(d[i]));
        }
    }
}

/// A signed number is the number of its size, behind a minus when it is below zero.
pub proof fn a_minus_stands_before(n: i32, s: String, size: u64, t: String)
    requires
        call_ensures(decimal_i32, (n,), s),
        size == if n < 0 {
            -n
        } else {
            n as int
        },
        call_ensures(decimal_u64, (size,), t),
    ensures
        n >= 0 ==> s@ == t@,
        n < 0 ==> s@ == seq!['-'] + t@,
{
}

/// Joined texts are the texts in order, with the separator between each two and nowhere else.
pub proof fn a_join_grows_by_one(parts: &Vec<String>, more: &Vec<String>, sep: &str, s: String, t: String)
    requires
        call_ensures(join, (parts, sep), s),
        call_ensures(join, (more, sep), t),
        more@.len() == parts@.len() + 1,
        forall|i: int| 0 <= i < parts@.len() ==> (#[trigger] more@[i])@ == parts@[i]@,
    ensures
        parts@.len() == 0 ==> s@.len() == 0 && t@ == more@[0]@,
        parts@.len() > 0 ==> t@ == s@ + sep@ + more@.last()@,
{
    let c = contents(more@);
    assert(c.drop_last() =~= contents(parts@));
    assert(c.last() == more@.last()@);
    assert(c[0] == more@[0]@);
}

/// A text is cut at its first such character, and comes whole only where it has none.
pub proof fn a_cut_is_at_the_first(s: &str, c: char, r: Option<(&str, &str)>)
    requires
        call_ensures(split_once, (s, c), r),
    ensures
        r is Some <==> s@.contains(c),
        r matches Some(p) ==> s@ == p.0@ + seq![c] + p.1@ && !p.0@.contains(c),
{
    lemma_next_cut(s@, Sep::Is(c), 0);
    let i = next_cut(s@, Sep::Is(c), 0);
    if i < s@.len() {
        assert(s@[i] == c);
        assert(s@ =~= s@.take(i) + seq![c] + s@.skip(i + 1));
        if s@.take(i).contains(c) {
            let k = choose|k: int| 0 <= k < i && s@.take(i)[k] == c;
            assert(!cuts(Sep::Is(c), s@[k]));
        }
    } else if s@.contains(c) {
        let k = choose|k: int| 0 <= k < s@.len() && s@[k] == c;
        assert(!cuts(Sep::Is(c), s@[k]));
    }
}

/// Where nothing is to be replaced the text stays; what stands at the front is replaced and the
/// rest goes on alone, and a character that begins no place stays.
pub proof fn a_replacement_goes_from_the_front(
    s: &str,
    from: &str,
    to: &str,
    r: String,
    tail: &str,
    t: String,
)
    requires
        call_ensures(replace, (s, from, to), r),
        call_ensures(replace, (tail, from, to), t),
    ensures
        !holds(s@, from@) ==> r@ == s@,
        from@.len() > 0 && s@ == from@ + tail@ ==> r@ == to@ + t@,
        from@.len() > 0 && s@.len() > 0 && !begins(s@, from@) && tail@ == s@.skip(1) ==> r@
            == seq![s@[0]] + t@,
{
    if from@.len() > 0 && s@ == from@ + tail@ {
        assert(s@.take(from@.len() as int) =~= from@);
        assert(s@.skip(from@.len() as int) =~= tail@);
    }
    if !holds(s@, from@) {
        lemma_nothing_replaced(s@, from@, to@);
    }
}

proof fn lemma_nothing_replaced(s: Seq<char>, from: Seq<char>, to: Seq<char>)
    requires
        !holds(s, from),
    ensures
        replaced(s, from, to) == s,
    decreases s.len(),
{
    if s.len() > 0 && from.len() > 0 {
        if begins(s, from) {
            assert(s.subrange(0, 0int + from.len()) =~= from);
        }
        let d = s.skip(1);
        if holds(d, from) {
            let i = choose|i: int|
                0 <= i && i + from.len() <= d.len() && #[trigger] d.subrange(i, i + from.len())
                    == from;
            assert(s.subrange(i + 1, i + 1 + from.len()) =~= from);
        }
        lemma_nothing_replaced(d, from, to);
        assert(seq![s[0]] + d =~= s);
    }
}

/// What is found is the first that begins so, and nothing is found only where none does.
pub proof fn the_first_is_found(list: &Vec<String>, p: &str, i: usize)
    requires
        call_ensures(find_with, (list, p), i),
    ensures
        i <= list@.len(),
        i < list@.len() ==> begins(list@[i as int]@, p@),
        forall|k: int| 0 <= k < i ==> !begins((#[trigger] list@[k])@, p@),
{
    lemma_first_with(contents(list@), p@, 0);
    assert forall|k: int| 0 <= k < i implies !begins((#[trigger] list@[k])@, p@) by {
        assert(contents(list@)[k] == list@[k]@);
    }
}

proof fn lemma_first_with(list: Seq<Seq<char>>, p: Seq<char>, k: int)
    requires
        0 <= k <= list.len(),
    ensures
        k <= first_with(list, p, k) <= list.len(),
        forall|j: int| k <= j < first_with(list, p, k) ==> !begins(#[trigger] list[j], p),
    decreases list.len() - k,
{
    if k < list.len() && !begins(list[k], p) {
        lemma_first_with(list, p, k + 1);
    }
}

/// A text stands among others exactly where one of them is the same.
pub proof fn a_text_stands_among_its_like(v: &Vec<String>, s: &str, r: bool)
    requires
        call_ensures(among, (v, s), r),
    ensures
        r <==> exists|i: int| 0 <= i < v@.len() && (#[trigger] v@[i])@ == s@,
{
    let c = contents(v@);
    if r {
        let i = choose|i: int| 0 <= i < c.len() && c[i] == s@;
        assert(v@[i]@ == s@);
    }
    if exists|i: int| 0 <= i < v@.len() && (#[trigger] v@[i])@ == s@ {
        let i = choose|i: int| 0 <= i < v@.len() && (#[trigger] v@[i])@ == s@;
        assert(c[i] == s@);
    }
}

/// A copy holds the same texts in the same order, and one more goes to the end.
pub proof fn a_copy_holds_the_same(
    v: &Vec<String>,
    out: Vec<String>,
    taken: Vec<String>,
    s: &str,
    more: Vec<String>,
)
    requires
        call_ensures(copied, (v,), out),
        taken@ == v@,
        call_ensures(with_text, (taken, s), more),
    ensures
        out@.len() == v@.len(),
        forall|i: int| 0 <= i < v@.len() ==> (#[trigger] out@[i])@ == v@[i]@,
        more@.len() == v@.len() + 1,
        more@.last()@ == s@,
        forall|i: int| 0 <= i < v@.len() ==> (#[trigger] more@[i])@ == v@[i]@,
{
    let c = contents(v@);
    assert(contents(out@).len() == c.len() && contents(more@).len() == c.len() + 1);
    assert forall|i: int| 0 <= i < v@.len() implies (#[trigger] out@[i])@ == v@[i]@ by {
        assert(contents(out@)[i] == c[i]);
    }
    assert forall|i: int| 0 <= i < v@.len() implies (#[trigger] more@[i])@ == v@[i]@ by {
        assert(contents(more@)[i] == c[i]);
    }
    assert(contents(more@)[c.len() as int] == s@);
}

/// A text of one line more has one line more: the lines of a text that ends with a line feed are
/// those of what stands before it and no others.
pub proof fn a_line_ends_at_its_feed(s: &str, out: Vec<&str>, i: int)
    requires
        call_ensures(lines, (s,), out),
        0 <= i < out@.len(),
    ensures
        !out@[i]@.contains('\n'),
        i == out@.len() - 1 && s@.last() != '\n' && s@.last() != '\r' ==> ends(s@, out@[i]@),
{
    lemma_parts(s@, '\n', 0);
    assert(s@.subrange(0, s@.len() as int) =~= s@);
    let p = parts(s@, Sep::Is('\n'));
    let l = lines_of(s@);
    assert(l.len() == out@.len());
    assert(l[i] == out@[i]@);
    if l[i].contains('\n') {
        let k = choose|k: int| 0 <= k < l[i].len() && l[i][k] == '\n';
        assert(p[i][k] != '\n');
    }
    if i == l.len() - 1 && s@.last() != '\n' && s@.last() != '\r' {
        if p.len() == 1 {
            assert(p[0] == s@);
            if p[0].len() == 0 {
                assert(l.len() == 0);
            }
            assert(s@.skip(0) =~= s@);
        } else {
            let front = joined(p.drop_last(), seq!['\n']) + seq!['\n'];
            assert(s@ == front + p.last());
            if p.last().len() == 0 {
                assert(s@.last() == '\n');
            }
            assert(s@.skip(s@.len() - p.last().len()) =~= p.last());
        }
    }
}

} // verus!
