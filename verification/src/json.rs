//! JSON documents as plain values, read by `serde_json`.

use crate::text;
use vstd::prelude::*;

verus! {

/// The documents of `serde_json`.
#[verifier::external_type_specification]
#[verifier::external_body]
pub struct ExValue(serde_json::Value);

/// Why `serde_json` refuses a text.
#[verifier::external_type_specification]
#[verifier::external_body]
pub struct ExError(serde_json::Error);

/// A document.
pub enum Json {
    Null,
    Bool(bool),
    /// A number, written out.
    Number(String),
    Text(String),
    List(Vec<Json>),
    /// Members.
    Object(Vec<(String, Json)>),
}

/// A document.
pub enum JsonView {
    Null,
    Bool(bool),
    Number(Seq<char>),
    Text(Seq<char>),
    List(Seq<JsonView>),
    Object(Seq<(Seq<char>, JsonView)>),
}

/// What a document holds.
pub open spec fn view_of(j: Json) -> JsonView
    decreases j, 0int,
{
    match j {
        Json::Null => JsonView::Null,
        Json::Bool(b) => JsonView::Bool(b),
        Json::Number(s) => JsonView::Number(s@),
        Json::Text(s) => JsonView::Text(s@),
        Json::List(l) => JsonView::List(list_views(l@, l@.len() as int)),
        Json::Object(o) => JsonView::Object(member_views(o@, o@.len() as int)),
    }
}

/// What the first `n` items of a list hold.
pub open spec fn list_views(l: Seq<Json>, n: int) -> Seq<JsonView>
    decreases l, n,
{
    if 0 < n <= l.len() {
        list_views(l, n - 1).push(view_of(l[n - 1]))
    } else {
        Seq::empty()
    }
}

/// What the first `n` members of an object hold.
pub open spec fn member_views(o: Seq<(String, Json)>, n: int) -> Seq<(Seq<char>, JsonView)>
    decreases o, n,
{
    if 0 < n <= o.len() {
        member_views(o, n - 1).push((o[n - 1].0@, view_of(o[n - 1].1)))
    } else {
        Seq::empty()
    }
}

impl View for Json {
    type V = JsonView;

    open spec fn view(&self) -> JsonView {
        view_of(*self)
    }
}

/// In no object of a document does a name occur twice.
pub open spec fn named_once(d: JsonView) -> bool
    decreases d, 0int,
{
    match d {
        JsonView::List(l) => items_named_once(l, l.len() as int),
        JsonView::Object(o) => names_once(o) && members_named_once(o, o.len() as int),
        _ => true,
    }
}

/// No name occurs twice among members.
pub open spec fn names_once(o: Seq<(Seq<char>, JsonView)>) -> bool {
    forall|i: int, j: int| 0 <= i < j < o.len() ==> (#[trigger] o[i]).0 != (#[trigger] o[j]).0
}

/// The first `n` items of a list have no name twice.
pub open spec fn items_named_once(l: Seq<JsonView>, n: int) -> bool
    decreases l, n,
{
    0 < n <= l.len() ==> items_named_once(l, n - 1) && named_once(l[n - 1])
}

/// The values of the first `n` members have no name twice.
pub open spec fn members_named_once(o: Seq<(Seq<char>, JsonView)>, n: int) -> bool
    decreases o, n,
{
    0 < n <= o.len() ==> members_named_once(o, n - 1) && named_once(o[n - 1].1)
}

/// What a `serde_json` document holds.
pub uninterp spec fn json_held(v: serde_json::Value) -> JsonView;

/// What `serde_json` reads in a text; none when it refuses it.
pub uninterp spec fn json_read(text: Seq<char>) -> Option<JsonView>;

/// `serde_json::from_str` on a document of any shape. What it reads, and whether it refuses a
/// text, follows from the text alone; which texts those are is the grammar of JSON and is left
/// to it.
#[verifier::external_body]
fn parse(text: &str) -> (r: Result<serde_json::Value, serde_json::Error>)
    ensures
        match r {
            Ok(v) => json_read(text@) == Some(json_held(v)),
            Err(_) => json_read(text@) is None,
        },
{
    serde_json::from_str(text)
}

/// A document one level deep.
enum Node<'a> {
    Null,
    Bool(bool),
    Number(String),
    Text(&'a String),
    List(&'a Vec<serde_json::Value>),
    Object(Vec<(&'a String, &'a serde_json::Value)>),
}

/// What the items of a list hold.
spec fn held_items(l: Seq<serde_json::Value>) -> Seq<JsonView> {
    l.map_values(|x: serde_json::Value| json_held(x))
}

/// What the members of an object hold.
spec fn held_members(o: Seq<(&String, &serde_json::Value)>) -> Seq<
    (Seq<char>, JsonView),
> {
    o.map_values(|m: (&String, &serde_json::Value)| (m.0@, json_held(*m.1)))
}

/// Tells the variants of `serde_json::Value` apart: each holds what its fields hold. A number is
/// written out by its `to_string`, and the members of an object come in the order of its map, no
/// name twice.
#[verifier::external_body]
fn node(v: &serde_json::Value) -> (n: Node<'_>)
    ensures
        json_held(*v) == match n {
            Node::Null => JsonView::Null,
            Node::Bool(b) => JsonView::Bool(b),
            Node::Number(s) => JsonView::Number(s@),
            Node::Text(s) => JsonView::Text(s@),
            Node::List(l) => JsonView::List(held_items(l@)),
            Node::Object(o) => JsonView::Object(held_members(o@)),
        },
        n matches Node::Object(o) ==> names_once(held_members(o@)),
{
    match v {
        serde_json::Value::Null => Node::Null,
        serde_json::Value::Bool(b) => Node::Bool(*b),
        serde_json::Value::Number(n) => Node::Number(n.to_string()),
        serde_json::Value::String(s) => Node::Text(s),
        serde_json::Value::Array(l) => Node::List(l),
        serde_json::Value::Object(o) => Node::Object(o.iter().collect()),
    }
}

/// The whole document as plain values.
fn plain(v: &serde_json::Value) -> (j: Json)
    ensures
        j@ == json_held(*v),
        named_once(j@),
    decreases json_held(*v),
{
    match node(v) {
        Node::Null => Json::Null,
        Node::Bool(b) => Json::Bool(b),
        Node::Number(s) => Json::Number(s),
        Node::Text(s) => Json::Text(s.clone()),
        Node::List(l) => {
            let ghost held = held_items(l@);
            let mut out: Vec<Json> = Vec::new();
            let mut i: usize = 0;
            while i < l.len()
                invariant
                    i <= l@.len(),
                    out@.len() == i,
                    held == held_items(l@),
                    json_held(*v) == JsonView::List(held),
                    list_views(out@, i as int) == held.take(i as int),
                    items_named_once(held, i as int),
                decreases l@.len() - i,
            {
                assert(held[i as int] == json_held(l@[i as int]));
                assert(decreases_to!(json_held(*v) => json_held(*v)->List_0));
                assert(decreases_to!(held => held[i as int]));
                let x: Json = plain(&l[i]);
                let ghost before = out@;
                out.push(x);
                i = i + 1;
                proof {
                    lemma_list_prefix(before, out@, i - 1);
                    assert(held.take(i as int) =~= held.take(i - 1).push(held[i - 1]));
                }
            }
            assert(held.take(i as int) =~= held);
            Json::List(out)
        },
        Node::Object(o) => {
            let ghost held = held_members(o@);
            let mut out: Vec<(String, Json)> = Vec::new();
            let mut i: usize = 0;
            while i < o.len()
                invariant
                    i <= o@.len(),
                    out@.len() == i,
                    held == held_members(o@),
                    json_held(*v) == JsonView::Object(held),
                    names_once(held),
                    member_views(out@, i as int) == held.take(i as int),
                    members_named_once(held, i as int),
                decreases o@.len() - i,
            {
                assert(held[i as int] == (o@[i as int].0@, json_held(*o@[i as int].1)));
                assert(decreases_to!(json_held(*v) => json_held(*v)->Object_0));
                assert(decreases_to!(held => held[i as int]));
                assert(decreases_to!(held[i as int] => held[i as int].1));
                let name: String = o[i].0.clone();
                let x: Json = plain(o[i].1);
                let ghost before = out@;
                out.push((name, x));
                i = i + 1;
                proof {
                    lemma_member_prefix(before, out@, i - 1);
                    assert(held.take(i as int) =~= held.take(i - 1).push(held[i - 1]));
                }
            }
            assert(held.take(i as int) =~= held);
            Json::Object(out)
        },
    }
}

proof fn lemma_list_prefix(a: Seq<Json>, b: Seq<Json>, n: int)
    requires
        0 <= n <= a.len() <= b.len(),
        forall|i: int| 0 <= i < n ==> a[i] == b[i],
    ensures
        list_views(a, n) == list_views(b, n),
    decreases n,
{
    if n > 0 {
        lemma_list_prefix(a, b, n - 1);
    }
}

proof fn lemma_member_prefix(a: Seq<(String, Json)>, b: Seq<(String, Json)>, n: int)
    requires
        0 <= n <= a.len() <= b.len(),
        forall|i: int| 0 <= i < n ==> a[i] == b[i],
    ensures
        member_views(a, n) == member_views(b, n),
    decreases n,
{
    if n > 0 {
        lemma_member_prefix(a, b, n - 1);
    }
}

/// Reads a document; none when the text is not one.
pub fn read(text: &str) -> (j: Option<Json>)
    ensures
        match j {
            Some(d) => json_read(text@) == Some(d@) && named_once(d@),
            None => json_read(text@) is None,
        },
{
    match parse(text) {
        Ok(v) => Some(plain(&v)),
        Err(_) => None,
    }
}

/// The first member of a name at or after `k`; the length when there is none.
pub open spec fn place(o: Seq<(Seq<char>, JsonView)>, name: Seq<char>, k: int) -> int
    decreases o.len() - k,
{
    if k < 0 || k >= o.len() {
        o.len() as int
    } else if o[k].0 == name {
        k
    } else {
        place(o, name, k + 1)
    }
}

/// A member of an object; nothing where there is none, or no object.
pub open spec fn member_of(d: JsonView, name: Seq<char>) -> JsonView {
    match d {
        JsonView::Object(o) => {
            let i = place(o, name, 0);
            if i < o.len() {
                o[i].1
            } else {
                JsonView::Null
            }
        },
        _ => JsonView::Null,
    }
}

/// The items of a list; none of anything else.
pub open spec fn items_of(d: JsonView) -> Seq<JsonView> {
    match d {
        JsonView::List(l) => l,
        _ => Seq::empty(),
    }
}

/// The text a document is, if it is one.
pub open spec fn text_of(d: JsonView) -> Option<Seq<char>> {
    match d {
        JsonView::Text(s) => Some(s),
        _ => None,
    }
}

proof fn lemma_list_views(l: Seq<Json>, n: int)
    requires
        0 <= n <= l.len(),
    ensures
        list_views(l, n).len() == n,
        forall|i: int| 0 <= i < n ==> #[trigger] list_views(l, n)[i] == l[i]@,
    decreases n,
{
    if n > 0 {
        lemma_list_views(l, n - 1);
    }
}

proof fn lemma_member_views(o: Seq<(String, Json)>, n: int)
    requires
        0 <= n <= o.len(),
    ensures
        member_views(o, n).len() == n,
        forall|i: int| 0 <= i < n ==> #[trigger] member_views(o, n)[i] == (o[i].0@, o[i].1@),
    decreases n,
{
    if n > 0 {
        lemma_member_views(o, n - 1);
    }
}

impl Json {
    /// A member of an object.
    pub fn member(&self, name: &str) -> (m: Option<&Json>)
        ensures
            member_of(self@, name@) == match m {
                Some(x) => x@,
                None => JsonView::Null,
            },
    {
        match self {
            Json::Object(o) => {
                let ghost held = member_views(o@, o@.len() as int);
                proof {
                    lemma_member_views(o@, o@.len() as int);
                }
                let mut i: usize = 0;
                while i < o.len()
                    invariant
                        i <= o@.len(),
                        held.len() == o@.len(),
                        forall|k: int|
                            0 <= k < o@.len() ==> #[trigger] held[k] == (o@[k].0@, o@[k].1@),
                        place(held, name@, 0) == place(held, name@, i as int),
                        self@ == JsonView::Object(held),
                    decreases o@.len() - i,
                {
                    assert(held[i as int] == (o@[i as int].0@, o@[i as int].1@));
                    if text::same(o[i].0.as_str(), name) {
                        return Some(&o[i].1);
                    }
                    i = i + 1;
                }
                None
            },
            _ => None,
        }
    }

    /// The items of a list.
    pub fn items(&self) -> (l: Option<&Vec<Json>>)
        ensures
            match l {
                Some(v) => v@.len() == items_of(self@).len() && forall|i: int|
                    0 <= i < v@.len() ==> #[trigger] v@[i]@ == items_of(self@)[i],
                None => items_of(self@).len() == 0,
            },
    {
        match self {
            Json::List(l) => {
                proof {
                    lemma_list_views(l@, l@.len() as int);
                }
                Some(l)
            },
            _ => None,
        }
    }

    /// The text this is, if it is one.
    pub fn as_text(&self) -> (t: Option<&String>)
        ensures
            text_of(self@) == match t {
                Some(s) => Some(s@),
                None => None,
            },
    {
        match self {
            Json::Text(s) => Some(s),
            _ => None,
        }
    }
}

/// A member is the one of its name: where an object has it, its value is given, and where it does
/// not, or there is no object, nothing.
pub proof fn a_member_is_found_by_its_name(j: &Json, name: &str, m: Option<&Json>, i: int)
    requires
        call_ensures(Json::member, (j, name), m),
    ensures
        *j matches Json::Object(o) ==> (0 <= i < o@.len() && o@[i].0@ == name@ && (forall|k: int|
            0 <= k < i ==> (#[trigger] o@[k]).0@ != name@) ==> match m {
            Some(x) => x@ == o@[i].1@,
            None => o@[i].1@ == JsonView::Null,
        }),
        *j matches Json::Object(o) ==> ((forall|k: int|
            0 <= k < o@.len() ==> (#[trigger] o@[k]).0@ != name@) ==> match m {
            Some(x) => x@ == JsonView::Null,
            None => true,
        }),
        !(j is Object) ==> match m {
            Some(x) => x@ == JsonView::Null,
            None => true,
        },
{
    if let Json::Object(o) = *j {
        let held = member_views(o@, o@.len() as int);
        lemma_member_views(o@, o@.len() as int);
        if 0 <= i < o@.len() && o@[i].0@ == name@ && (forall|k: int|
            0 <= k < i ==> (#[trigger] o@[k]).0@ != name@) {
            assert(held[i] == (o@[i].0@, o@[i].1@));
            assert forall|k: int| 0 <= k < i implies (#[trigger] held[k]).0 != name@ by {
                assert(held[k] == (o@[k].0@, o@[k].1@));
            }
            lemma_place(held, name@, 0, i);
        }
        if forall|k: int| 0 <= k < o@.len() ==> (#[trigger] o@[k]).0@ != name@ {
            assert forall|k: int| 0 <= k < held.len() implies (#[trigger] held[k]).0 != name@ by {
                assert(held[k] == (o@[k].0@, o@[k].1@));
            }
            lemma_no_place(held, name@, 0);
        }
    }
}

proof fn lemma_place(o: Seq<(Seq<char>, JsonView)>, name: Seq<char>, k: int, i: int)
    requires
        0 <= k <= i < o.len(),
        o[i].0 == name,
        forall|j: int| k <= j < i ==> (#[trigger] o[j]).0 != name,
    ensures
        place(o, name, k) == i,
    decreases i - k,
{
    if k < i {
        lemma_place(o, name, k + 1, i);
    }
}

proof fn lemma_no_place(o: Seq<(Seq<char>, JsonView)>, name: Seq<char>, k: int)
    requires
        0 <= k <= o.len(),
        forall|j: int| k <= j < o.len() ==> (#[trigger] o[j]).0 != name,
    ensures
        place(o, name, k) == o.len(),
    decreases o.len() - k,
{
    if k < o.len() {
        lemma_no_place(o, name, k + 1);
    }
}

/// Only a list has items, and it has all of its own; only a text is a text.
pub proof fn a_document_is_what_it_is(j: &Json, l: Option<&Vec<Json>>, t: Option<&String>)
    requires
        call_ensures(Json::items, (j,), l),
        call_ensures(Json::as_text, (j,), t),
    ensures
        *j matches Json::List(v) ==> v@.len() > 0 ==> l is Some && l->0@.len() == v@.len()
            && forall|i: int| 0 <= i < v@.len() ==> #[trigger] l->0@[i]@ == v@[i]@,
        !(j is List) ==> match l {
            Some(v) => v@.len() == 0,
            None => true,
        },
        *j matches Json::Text(s) ==> t is Some && t->0@ == s@,
        !(j is Text) ==> t is None,
{
    if let Json::List(v) = *j {
        lemma_list_views(v@, v@.len() as int);
    }
}

} // verus!
