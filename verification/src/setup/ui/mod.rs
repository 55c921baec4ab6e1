//! What a run says to whoever watches it.

pub mod summary;
pub mod tui;

use vstd::prelude::*;

verus! {

/// One thing said.
pub enum Told {
    /// A heading.
    Say(String),
    /// Something that is well.
    Fine(String),
    Warn(String),
    /// A command.
    Plus(String),
    Detail(String),
    Line(String),
    Blank,
}

/// One thing said.
#[verifier::ext_equal]
pub enum ToldView {
    Say(Seq<char>),
    Fine(Seq<char>),
    Warn(Seq<char>),
    Plus(Seq<char>),
    Detail(Seq<char>),
    Line(Seq<char>),
    Blank,
}

impl View for Told {
    type V = ToldView;

    open spec fn view(&self) -> ToldView {
        match *self {
            Told::Say(t) => ToldView::Say(t@),
            Told::Fine(t) => ToldView::Fine(t@),
            Told::Warn(t) => ToldView::Warn(t@),
            Told::Plus(t) => ToldView::Plus(t@),
            Told::Detail(t) => ToldView::Detail(t@),
            Told::Line(t) => ToldView::Line(t@),
            Told::Blank => ToldView::Blank,
        }
    }
}

pub open spec fn told_views(v: Seq<Told>) -> Seq<ToldView> {
    v.map_values(|t: Told| t@)
}

/// What is said, and one more when it applies.
pub open spec fn and_if(s: Seq<ToldView>, c: bool, x: ToldView) -> Seq<ToldView> {
    if c {
        s.push(x)
    } else {
        s
    }
}

/// Nothing said yet.
pub fn silence() -> (v: Vec<Told>)
    ensures
        told_views(v@) == Seq::<ToldView>::empty(),
{
    let v: Vec<Told> = Vec::new();
    assert(told_views(v@) =~= Seq::<ToldView>::empty());
    v
}

/// One more thing said.
pub fn tell(v: &mut Vec<Told>, t: Told)
    ensures
        told_views(final(v)@) == told_views(old(v)@).push(t@),
{
    let ghost before = v@;
    v.push(t);
    assert(told_views(v@) =~= told_views(before).push(t@));
}

/// One more line said.
pub fn tell_line(v: &mut Vec<Told>, t: &str)
    ensures
        told_views(final(v)@) == told_views(old(v)@).push(ToldView::Line(t@)),
{
    tell(v, Told::Line(t.to_owned()));
}

/// This is said somewhere.
pub open spec fn says(v: Seq<Told>, x: ToldView) -> bool {
    exists|i: int| 0 <= i < v.len() && (#[trigger] v[i])@ == x
}

/// What is told stands at the end of what was told before.
pub proof fn what_is_told_is_told_last(
    v: &mut Vec<Told>,
    t: Told,
    w: &mut Vec<Told>,
    s: &str,
    none: Vec<Told>,
)
    requires
        call_ensures(tell, (v, t), ()),
        call_ensures(tell_line, (w, s), ()),
        call_ensures(silence, (), none),
    ensures
        final(v)@.len() == old(v)@.len() + 1,
        final(v)@.last()@ == t@,
        forall|i: int| 0 <= i < old(v)@.len() ==> (#[trigger] final(v)@[i])@ == old(v)@[i]@,
        final(w)@.len() == old(w)@.len() + 1,
        final(w)@.last()@ == ToldView::Line(s@),
        none@.len() == 0,
{
    let a = told_views(old(v)@);
    let b = told_views(final(v)@);
    let c = told_views(final(w)@);
    assert(a.len() == old(v)@.len() && b.len() == final(v)@.len());
    assert(c.len() == final(w)@.len() && told_views(old(w)@).len() == old(w)@.len());
    assert(told_views(none@).len() == none@.len());
    assert(b[b.len() - 1] == final(v)@.last()@);
    assert(c[c.len() - 1] == final(w)@.last()@);
    assert forall|i: int| 0 <= i < old(v)@.len() implies (#[trigger] final(v)@[i])@ == old(v)@[i]@ by {
        assert(b[i] == a[i]);
    }
}

/// What is said is what the views hold.
pub proof fn lemma_says(v: Seq<Told>, x: ToldView)
    ensures
        says(v, x) <==> told_views(v).contains(x),
{
    let t = told_views(v);
    if says(v, x) {
        let i = choose|i: int| 0 <= i < v.len() && (#[trigger] v[i])@ == x;
        assert(t[i] == x);
    }
    if t.contains(x) {
        let i = choose|i: int| 0 <= i < t.len() && t[i] == x;
        assert(v[i]@ == x);
    }
}

/// What is said of two parts is said in one of them.
pub proof fn lemma_says_both(a: Seq<ToldView>, b: Seq<ToldView>, x: ToldView)
    ensures
        (a + b).contains(x) <==> a.contains(x) || b.contains(x),
{
    let s = a + b;
    if a.contains(x) {
        let i = choose|i: int| 0 <= i < a.len() && a[i] == x;
        assert(s[i] == x);
    }
    if b.contains(x) {
        let i = choose|i: int| 0 <= i < b.len() && b[i] == x;
        assert(s[a.len() + i] == x);
    }
    if s.contains(x) {
        let i = choose|i: int| 0 <= i < s.len() && s[i] == x;
        if i < a.len() {
            assert(a[i] == x);
        } else {
            assert(b[i - a.len()] == x);
        }
    }
}

/// One more thing said is said, and what was said before.
pub proof fn lemma_says_push(a: Seq<ToldView>, y: ToldView, x: ToldView)
    ensures
        a.push(y).contains(x) <==> a.contains(x) || x == y,
{
    let s = a.push(y);
    if a.contains(x) {
        let i = choose|i: int| 0 <= i < a.len() && a[i] == x;
        assert(s[i] == x);
    }
    if x == y {
        assert(s[a.len() as int] == x);
    }
    if s.contains(x) {
        let i = choose|i: int| 0 <= i < s.len() && s[i] == x;
        if i < a.len() {
            assert(a[i] == x);
        }
    }
}

} // verus!
