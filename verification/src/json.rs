//! JSON values as trees, with the text form left to `serde_json`.

use crate::text::same_text;
use vstd::prelude::*;

verus! {

/// A JSON value.
#[derive(Debug, PartialEq, Eq)]
pub enum Json {
    Null,
    Bool(bool),
    /// A number that is an unsigned 64-bit integer.
    Number(u64),
    /// Any other number: negative, fractional or too large. Its value is not kept.
    OtherNumber,
    Str(String),
    Array(Vec<Json>),
    /// The members of an object, in the order of the text.
    Object(Vec<(String, Json)>),
}

/// The mathematical value of a [`Json`].
pub enum JsonView {
    Null,
    Bool(bool),
    Number(nat),
    OtherNumber,
    Str(Seq<char>),
    Array(Seq<JsonView>),
    Object(Seq<(Seq<char>, JsonView)>),
}

/// The mathematical value of a tree, level by level.
pub open spec fn json_view(json: Json) -> JsonView
    decreases json,
{
    match json {
        Json::Null => JsonView::Null,
        Json::Bool(b) => JsonView::Bool(b),
        Json::Number(n) => JsonView::Number(n as nat),
        Json::OtherNumber => JsonView::OtherNumber,
        Json::Str(s) => JsonView::Str(s@),
        Json::Array(items) => JsonView::Array(
            Seq::new(
                items@.len(),
                |i: int|
                    if 0 <= i < items@.len() {
                        json_view(items@[i])
                    } else {
                        JsonView::Null
                    },
            ),
        ),
        Json::Object(members) => JsonView::Object(
            Seq::new(
                members@.len(),
                |i: int|
                    if 0 <= i < members@.len() {
                        (members@[i].0@, json_view(members@[i].1))
                    } else {
                        (Seq::empty(), JsonView::Null)
                    },
            ),
        ),
    }
}

impl View for Json {
    type V = JsonView;

    open spec fn view(&self) -> JsonView {
        json_view(*self)
    }
}

/// Whether no two members have the same key.
pub open spec fn distinct_keys(members: Seq<(Seq<char>, JsonView)>) -> bool {
    forall|i: int, j: int| 0 <= i < j < members.len() ==> members[i].0 != members[j].0
}

/// The value of the first member with the given key.
pub open spec fn lookup(members: Seq<(Seq<char>, JsonView)>, key: Seq<char>) -> Option<JsonView>
    decreases members.len(),
{
    if members.len() == 0 {
        None
    } else if members[0].0 == key {
        Some(members[0].1)
    } else {
        lookup(members.drop_first(), key)
    }
}

/// The values of the members of an object, as they lie in memory.
pub open spec fn members_view(members: Seq<(String, Json)>) -> Seq<(Seq<char>, JsonView)> {
    members.map_values(|m: (String, Json)| (m.0@, m.1@))
}

/// The values of the items of an array, as they lie in memory.
pub open spec fn items_view(items: Seq<Json>) -> Seq<JsonView> {
    items.map_values(|item: Json| item@)
}

/// An object's value is made of its members' values.
pub proof fn lemma_view_object(members: Vec<(String, Json)>)
    ensures
        Json::Object(members)@ == JsonView::Object(members_view(members@)),
{
    assert(Json::Object(members)@->Object_0 =~= members_view(members@));
}

/// An array's value is made of its items' values.
pub proof fn lemma_view_array(items: Vec<Json>)
    ensures
        Json::Array(items)@ == JsonView::Array(items_view(items@)),
{
    assert(Json::Array(items)@->Array_0 =~= items_view(items@));
}

/// The first member with a key is the one that [`lookup`] finds.
pub proof fn lemma_lookup_first(members: Seq<(Seq<char>, JsonView)>, key: Seq<char>, at: int)
    requires
        0 <= at < members.len(),
        members[at].0 == key,
        forall|k: int| 0 <= k < at ==> members[k].0 != key,
    ensures
        lookup(members, key) == Some(members[at].1),
    decreases at,
{
    if at > 0 {
        let rest = members.drop_first();
        assert forall|k: int| 0 <= k < at - 1 implies rest[k].0 != key by {
            assert(rest[k] == members[k + 1]);
        }
        lemma_lookup_first(rest, key, at - 1);
    }
}

/// Where no member has a key, [`lookup`] finds nothing.
pub proof fn lemma_lookup_absent(members: Seq<(Seq<char>, JsonView)>, key: Seq<char>)
    requires
        forall|k: int| 0 <= k < members.len() ==> members[k].0 != key,
    ensures
        lookup(members, key) is None,
    decreases members.len(),
{
    if members.len() > 0 {
        let rest = members.drop_first();
        assert forall|k: int| 0 <= k < rest.len() implies rest[k].0 != key by {
            assert(rest[k] == members[k + 1]);
        }
        lemma_lookup_absent(rest, key);
    }
}

/// Members that stand before others hide them: what follows is searched only
/// for keys that the first part lacks.
pub proof fn lemma_lookup_concat(
    first: Seq<(Seq<char>, JsonView)>,
    second: Seq<(Seq<char>, JsonView)>,
    key: Seq<char>,
)
    ensures
        lookup(first + second, key) == match lookup(first, key) {
            Some(found) => Some(found),
            None => lookup(second, key),
        },
    decreases first.len(),
{
    if first.len() == 0 {
        assert(first + second =~= second);
    } else {
        assert((first + second).drop_first() =~= first.drop_first() + second);
        lemma_lookup_concat(first.drop_first(), second, key);
    }
}

impl JsonView {
    /// Whether the tree has a text form: it holds no number whose value was
    /// not kept, and no object in it has two members with one key.
    pub open spec fn renderable(self) -> bool
        decreases self,
    {
        match self {
            JsonView::OtherNumber => false,
            JsonView::Array(items) => forall|i: int|
                0 <= i < items.len() ==> (#[trigger] items[i]).renderable(),
            JsonView::Object(members) => {
                &&& distinct_keys(members)
                &&& forall|i: int| 0 <= i < members.len() ==> (#[trigger] members[i]).1.renderable()
            },
            _ => true,
        }
    }
}

/// `serde_json`'s own tree type. Values of it only pass through this module.
#[verifier::external_type_specification]
#[verifier::external_body]
pub struct ExValue(serde_json::Value);

/// What `serde_json::from_str` makes of a text: the tree it reads, or `None`
/// where it reports an error.
pub uninterp spec fn parsed(text: Seq<char>) -> Option<JsonView>;

/// The tree that a `serde_json::Value` holds.
pub uninterp spec fn tree(value: serde_json::Value) -> JsonView;

/// The compact text that `serde_json` writes for a tree.
pub uninterp spec fn printed(tree: JsonView) -> Seq<char>;

/// One level of a `serde_json::Value`, borrowed from it.
enum Shape<'a> {
    Null,
    Bool(bool),
    Number(u64),
    OtherNumber,
    Str(&'a String),
    Array(&'a Vec<serde_json::Value>),
    Object(Vec<(&'a String, &'a serde_json::Value)>),
}

impl<'a> Shape<'a> {
    spec fn view(self) -> JsonView {
        match self {
            Shape::Null => JsonView::Null,
            Shape::Bool(b) => JsonView::Bool(b),
            Shape::Number(n) => JsonView::Number(n as nat),
            Shape::OtherNumber => JsonView::OtherNumber,
            Shape::Str(s) => JsonView::Str(s@),
            Shape::Array(items) => JsonView::Array(
                items@.map_values(|v: serde_json::Value| tree(v)),
            ),
            Shape::Object(members) => JsonView::Object(
                members@.map_values(|m: (&String, &serde_json::Value)| (m.0@, tree(*m.1))),
            ),
        }
    }
}

/// One level of a `serde_json::Value` to be made, holding the levels below.
enum Parts {
    Null,
    Bool(bool),
    Number(u64),
    Str(String),
    Array(Vec<serde_json::Value>),
    Object(Vec<(String, serde_json::Value)>),
}

impl Parts {
    spec fn view(self) -> JsonView {
        match self {
            Parts::Null => JsonView::Null,
            Parts::Bool(b) => JsonView::Bool(b),
            Parts::Number(n) => JsonView::Number(n as nat),
            Parts::Str(s) => JsonView::Str(s@),
            Parts::Array(items) => JsonView::Array(
                items@.map_values(|v: serde_json::Value| tree(v)),
            ),
            Parts::Object(members) => JsonView::Object(
                members@.map_values(|m: (String, serde_json::Value)| (m.0@, tree(m.1))),
            ),
        }
    }
}

/// Calls `serde_json::from_str` for a `serde_json::Value`. What comes back
/// depends on the text alone: the tree of the value read is the one that
/// [`parsed`] names, and an error is `None`.
#[verifier::external_body]
fn parse_value(text: &str) -> (value: Option<serde_json::Value>)
    ensures
        match value {
            Some(v) => parsed(text@) == Some(tree(v)),
            None => parsed(text@) is None,
        },
{
    serde_json::from_str::<serde_json::Value>(text).ok()
}

/// Tells the variants of a `serde_json::Value` apart and hands out what the
/// variant holds: a number through `Number::as_u64`, the members of an object
/// through `Map::iter`, in the map's order. This is what [`tree`] means, one
/// level at a time.
#[verifier::external_body]
fn unpack<'a>(value: &'a serde_json::Value) -> (shape: Shape<'a>)
    ensures
        shape.view() == tree(*value),
{
    match value {
        serde_json::Value::Null => Shape::Null,
        serde_json::Value::Bool(b) => Shape::Bool(*b),
        serde_json::Value::Number(n) => match n.as_u64() {
            Some(u) => Shape::Number(u),
            None => Shape::OtherNumber,
        },
        serde_json::Value::String(s) => Shape::Str(s),
        serde_json::Value::Array(items) => Shape::Array(items),
        serde_json::Value::Object(members) => Shape::Object(members.iter().collect()),
    }
}

/// Makes a `serde_json::Value` of the variant asked for; a number through
/// `Number::from`. The members of an object are collected into a `Map`, which
/// keeps the order in which they are put in. A key that is put in twice stays
/// once, so the contract speaks of members with distinct keys only.
#[verifier::external_body]
fn pack(parts: Parts) -> (value: serde_json::Value)
    ensures
        (parts.view() matches JsonView::Object(members) ==> distinct_keys(members)) ==> tree(value)
            == parts.view(),
{
    match parts {
        Parts::Null => serde_json::Value::Null,
        Parts::Bool(b) => serde_json::Value::Bool(b),
        Parts::Number(n) => serde_json::Value::Number(n.into()),
        Parts::Str(s) => serde_json::Value::String(s),
        Parts::Array(items) => serde_json::Value::Array(items),
        Parts::Object(members) => serde_json::Value::Object(members.into_iter().collect()),
    }
}

/// Writes a `serde_json::Value` through its `Display`, which gives the compact
/// text and does not fail for a `Value`. Two values with the same tree are
/// written alike unless a number is in them whose value the tree does not
/// keep: for a tree with a text form, the text is the one that [`printed`]
/// names.
#[verifier::external_body]
fn print_value(value: &serde_json::Value) -> (text: String)
    ensures
        tree(*value).renderable() ==> text@ == printed(tree(*value)),
{
    value.to_string()
}

/// Copies the tree out of a `serde_json::Value`.
fn from_value(value: &serde_json::Value) -> (json: Json)
    ensures
        json@ == tree(*value),
    decreases tree(*value),
{
    match unpack(value) {
        Shape::Null => Json::Null,
        Shape::Bool(b) => Json::Bool(b),
        Shape::Number(n) => Json::Number(n),
        Shape::OtherNumber => Json::OtherNumber,
        Shape::Str(s) => Json::Str(s.clone()),
        Shape::Array(items) => {
            let mut out: Vec<Json> = Vec::new();
            let mut i: usize = 0;
            while i < items.len()
                invariant
                    i <= items.len(),
                    out.len() == i,
                    tree(*value) == JsonView::Array(
                        items@.map_values(|v: serde_json::Value| tree(v)),
                    ),
                    forall|k: int| 0 <= k < i ==> (#[trigger] out@[k])@ == tree(items@[k]),
                decreases items.len() - i,
            {
                proof {
                    let whole = tree(*value);
                    assert(whole->Array_0[i as int] == tree(items@[i as int]));
                    assert(decreases_to!(whole => whole->Array_0));
                    assert(decreases_to!(whole->Array_0 => whole->Array_0[i as int]));
                }
                let item = from_value(&items[i]);
                out.push(item);
                i += 1;
            }
            let json = Json::Array(out);
            assert(json@->Array_0 =~= tree(*value)->Array_0);
            json
        },
        Shape::Object(members) => {
            let mut out: Vec<(String, Json)> = Vec::new();
            let mut i: usize = 0;
            while i < members.len()
                invariant
                    i <= members.len(),
                    out.len() == i,
                    tree(*value) == JsonView::Object(
                        members@.map_values(|m: (&String, &serde_json::Value)| (m.0@, tree(*m.1))),
                    ),
                    forall|k: int| 0 <= k < i ==> (#[trigger] out@[k]).0@ == members@[k].0@,
                    forall|k: int| 0 <= k < i ==> (#[trigger] out@[k]).1@ == tree(*members@[k].1),
                decreases members.len() - i,
            {
                let key = members[i].0.clone();
                proof {
                    let whole = tree(*value);
                    assert(whole->Object_0[i as int].1 == tree(*members@[i as int].1));
                    assert(decreases_to!(whole => whole->Object_0));
                    assert(decreases_to!(whole->Object_0 => whole->Object_0[i as int]));
                    assert(decreases_to!(whole->Object_0[i as int] => whole->Object_0[i as int].1));
                }
                let item = from_value(members[i].1);
                out.push((key, item));
                i += 1;
            }
            let json = Json::Object(out);
            assert(json@->Object_0 =~= tree(*value)->Object_0);
            json
        },
    }
}

/// Whether no two members have the same key.
fn keys_distinct(members: &Vec<(String, Json)>) -> (distinct: bool)
    ensures
        distinct == (forall|i: int, j: int|
            0 <= i < j < members.len() ==> members@[i].0@ != members@[j].0@),
{
    let mut j: usize = 0;
    while j < members.len()
        invariant
            j <= members.len(),
            forall|a: int, b: int| 0 <= a < b < j ==> members@[a].0@ != members@[b].0@,
        decreases members.len() - j,
    {
        let mut i: usize = 0;
        while i < j
            invariant
                i <= j < members.len(),
                forall|a: int| 0 <= a < i ==> members@[a].0@ != members@[j as int].0@,
            decreases j - i,
        {
            if same_text(members[i].0.as_str(), members[j].0.as_str()) {
                return false;
            }
            i += 1;
        }
        j += 1;
    }
    true
}

/// Makes the `serde_json::Value` that holds a tree. `None` where the tree has
/// no text form.
fn to_value(json: &Json) -> (value: Option<serde_json::Value>)
    ensures
        match value {
            Some(v) => json@.renderable() && tree(v) == json@,
            None => !json@.renderable(),
        },
    decreases json,
{
    match json {
        Json::Null => Some(pack(Parts::Null)),
        Json::Bool(b) => Some(pack(Parts::Bool(*b))),
        Json::Number(n) => Some(pack(Parts::Number(*n))),
        Json::OtherNumber => None,
        Json::Str(s) => Some(pack(Parts::Str(s.clone()))),
        Json::Array(items) => {
            let mut out: Vec<serde_json::Value> = Vec::new();
            let mut i: usize = 0;
            while i < items.len()
                invariant
                    i <= items.len(),
                    out.len() == i,
                    json == Json::Array(*items),
                    forall|k: int| 0 <= k < i ==> tree(#[trigger] out@[k]) == items@[k]@,
                    forall|k: int| 0 <= k < i ==> (#[trigger] items@[k])@.renderable(),
                decreases items.len() - i,
            {
                match to_value(&items[i]) {
                    Some(v) => out.push(v),
                    None => {
                        assert(json@->Array_0[i as int] == items@[i as int]@);
                        return None;
                    },
                }
                i += 1;
            }
            let parts = Parts::Array(out);
            assert(parts.view()->Array_0 =~= json@->Array_0);
            assert forall|k: int| 0 <= k < json@->Array_0.len() implies (
            #[trigger] json@->Array_0[k]).renderable() by {
                assert(items@[k]@.renderable());
            }
            Some(pack(parts))
        },
        Json::Object(members) => {
            if !keys_distinct(members) {
                let ghost bad = choose|i: int, j: int|
                    0 <= i < j < members.len() && members@[i].0@ == members@[j].0@;
                assert(json@->Object_0[bad.0].0 == json@->Object_0[bad.1].0);
                return None;
            }
            let mut out: Vec<(String, serde_json::Value)> = Vec::new();
            let mut i: usize = 0;
            while i < members.len()
                invariant
                    i <= members.len(),
                    out.len() == i,
                    json == Json::Object(*members),
                    forall|k: int| 0 <= k < i ==> (#[trigger] out@[k]).0@ == members@[k].0@,
                    forall|k: int| 0 <= k < i ==> tree((#[trigger] out@[k]).1) == members@[k].1@,
                    forall|k: int| 0 <= k < i ==> (#[trigger] members@[k]).1@.renderable(),
                decreases members.len() - i,
            {
                match to_value(&members[i].1) {
                    Some(v) => out.push((members[i].0.clone(), v)),
                    None => {
                        assert(json@->Object_0[i as int].1 == members@[i as int].1@);
                        return None;
                    },
                }
                i += 1;
            }
            let parts = Parts::Object(out);
            assert(parts.view()->Object_0 =~= json@->Object_0);
            assert forall|k: int| 0 <= k < json@->Object_0.len() implies (
            #[trigger] json@->Object_0[k]).1.renderable() by {
                assert(members@[k].1@.renderable());
            }
            Some(pack(parts))
        },
    }
}

/// The first member with the given key.
pub fn find<'a>(members: &'a Vec<(String, Json)>, key: &str) -> (found: Option<&'a Json>)
    ensures
        match found {
            Some(json) => lookup(members_view(members@), key@) == Some(json@),
            None => lookup(members_view(members@), key@) is None,
        },
{
    let mut i: usize = 0;
    while i < members.len()
        invariant
            i <= members.len(),
            forall|k: int| 0 <= k < i ==> members@[k].0@ != key@,
        decreases members.len() - i,
    {
        if same_text(members[i].0.as_str(), key) {
            proof {
                lemma_lookup_first(members_view(members@), key@, i as int);
            }
            return Some(&members[i].1);
        }
        i += 1;
    }
    proof {
        lemma_lookup_absent(members_view(members@), key@);
    }
    None
}

impl Json {
    /// Writes the tree as compact JSON text. `None` where it has no text
    /// form.
    pub fn render(&self) -> (text: Option<String>)
        ensures
            match text {
                Some(t) => self@.renderable() && t@ == printed(self@),
                None => !self@.renderable(),
            },
    {
        match to_value(self) {
            Some(value) => Some(print_value(&value)),
            None => None,
        }
    }

    /// Reads a JSON text. `None` where the text is not JSON.
    pub fn parse(text: &str) -> (json: Option<Json>)
        ensures
            match json {
                Some(j) => parsed(text@) == Some(j@),
                None => parsed(text@) is None,
            },
    {
        match parse_value(text) {
            Some(value) => Some(from_value(&value)),
            None => None,
        }
    }
}

} // verus!
