//! JSON documents as the library reads them: a tree of plain values, parsed
//! by serde_json, and the lookups that the download logic makes in it.
use vstd::prelude::*;

use crate::text::{str_eq, to_owned};

verus! {

#[verifier::external_type_specification]
#[verifier::external_body]
pub struct ExJsonValue(serde_json::Value);

/// A JSON value. Numbers are kept only as such: nothing reads their value.
pub enum JsonValue {
    Null,
    Bool(bool),
    Number,
    Str(String),
    Array(Vec<JsonValue>),
    Object(Vec<(String, JsonValue)>),
}

/// The mathematical model of a JSON value; an object is its members in
/// order.
pub enum JsonView {
    Null,
    Bool(bool),
    Number,
    Str(Seq<char>),
    Array(Seq<JsonView>),
    Object(Seq<(Seq<char>, JsonView)>),
}

pub open spec fn json_view(v: JsonValue) -> JsonView
    decreases v,
{
    match v {
        JsonValue::Null => JsonView::Null,
        JsonValue::Bool(b) => JsonView::Bool(b),
        JsonValue::Number => JsonView::Number,
        JsonValue::Str(s) => JsonView::Str(s@),
        JsonValue::Array(a) => JsonView::Array(
            Seq::new(
                a@.len(),
                |i: int|
                    if 0 <= i < a@.len() {
                        json_view(a@[i])
                    } else {
                        JsonView::Null
                    },
            ),
        ),
        JsonValue::Object(o) => JsonView::Object(
            Seq::new(
                o@.len(),
                |i: int|
                    if 0 <= i < o@.len() {
                        (o@[i].0@, json_view(o@[i].1))
                    } else {
                        (Seq::empty(), JsonView::Null)
                    },
            ),
        ),
    }
}

impl View for JsonValue {
    type V = JsonView;

    open spec fn view(&self) -> JsonView {
        json_view(*self)
    }
}

pub open spec fn opt_json_view(o: Option<JsonValue>) -> Option<JsonView> {
    match o {
        Some(v) => Some(v@),
        None => None,
    }
}

pub open spec fn opt_ref_view(o: Option<&JsonValue>) -> Option<JsonView> {
    match o {
        Some(v) => Some(v@),
        None => None,
    }
}

/// The first member called `key` among `members`.
pub open spec fn lookup(members: Seq<(Seq<char>, JsonView)>, key: Seq<char>) -> Option<JsonView>
    decreases members.len(),
{
    if members.len() == 0 {
        None
    } else if members[0].0 == key {
        Some(members[0].1)
    } else {
        lookup(members.drop_first(), key)
    }
}

/// `Value::get` with a key: the member of an object, `None` for any other
/// value.
pub open spec fn member(j: JsonView, key: Seq<char>) -> Option<JsonView> {
    match j {
        JsonView::Object(ms) => lookup(ms, key),
        _ => None,
    }
}

/// `get(a).or_else(|| get(b))`: the first member that is present.
pub open spec fn member_or(j: JsonView, a: Seq<char>, b: Seq<char>) -> Option<JsonView> {
    match member(j, a) {
        Some(v) => Some(v),
        None => member(j, b),
    }
}

/// `and_then(as_str)`.
pub open spec fn text_of(o: Option<JsonView>) -> Option<Seq<char>> {
    match o {
        Some(JsonView::Str(s)) => Some(s),
        _ => None,
    }
}

/// `and_then(as_array)`.
pub open spec fn items_of(o: Option<JsonView>) -> Option<Seq<JsonView>> {
    match o {
        Some(JsonView::Array(a)) => Some(a),
        _ => None,
    }
}

/// `serde_json::from_slice::<Value>`: the document that `bytes` hold, if
/// they are valid JSON.
pub uninterp spec fn json_from_bytes(bytes: Seq<u8>) -> Option<JsonView>;

/// `serde_json::from_str::<Value>`: the document that `text` holds, if it
/// is valid JSON.
pub uninterp spec fn json_from_text(text: Seq<char>) -> Option<JsonView>;

/// Moves a parsed `serde_json::Value` into a `JsonValue`, variant by
/// variant (object members in the map's order). It serves the two parsing
/// wrappers below, whose contracts cover it.
#[verifier::external_body]
fn json_tree(v: serde_json::Value) -> JsonValue {
    match v {
        serde_json::Value::Null => JsonValue::Null,
        serde_json::Value::Bool(b) => JsonValue::Bool(b),
        serde_json::Value::Number(_) => JsonValue::Number,
        serde_json::Value::String(s) => JsonValue::Str(s),
        serde_json::Value::Array(a) => JsonValue::Array(a.into_iter().map(json_tree).collect()),
        serde_json::Value::Object(m) => JsonValue::Object(m.into_iter().map(|(k, x)| (k, json_tree(x))).collect()),
    }
}

/// `serde_json::from_slice::<serde_json::Value>`: the parsed document, or
/// `None` where serde_json reports an error. The result is claimed to be a
/// function of the bytes alone (`json_from_bytes`).
#[verifier::external_body]
pub(crate) fn parse_json_bytes(bytes: &[u8]) -> (r: Option<JsonValue>)
    ensures
        opt_json_view(r) == json_from_bytes(bytes@),
{
    serde_json::from_slice::<serde_json::Value>(bytes).ok().map(json_tree)
}

/// `serde_json::from_str::<serde_json::Value>`: the parsed document, or
/// `None` where serde_json reports an error. The result is claimed to be a
/// function of the text alone (`json_from_text`).
#[verifier::external_body]
pub(crate) fn parse_json_text(text: &str) -> (r: Option<JsonValue>)
    ensures
        opt_json_view(r) == json_from_text(text@),
{
    serde_json::from_str::<serde_json::Value>(text).ok().map(json_tree)
}

impl JsonValue {
    /// `Value::get`: the member called `key` of an object.
    pub fn get(&self, key: &str) -> (r: Option<&JsonValue>)
        ensures
            opt_ref_view(r) == member(self@, key@),
    {
        match self {
            JsonValue::Object(ms) => {
                let ghost view = self@;
                let ghost mv = match view {
                    JsonView::Object(x) => x,
                    _ => Seq::empty(),
                };
                assert(mv.len() == ms@.len());
                let mut i: usize = 0;
                assert(mv.subrange(0, mv.len() as int) =~= mv);
                while i < ms.len()
                    invariant
                        i <= ms@.len(),
                        mv.len() == ms@.len(),
                        forall|k: int| 0 <= k < ms@.len() ==> #[trigger] mv[k] == (ms@[k].0@, ms@[k].1@),
                        member(self@, key@) == lookup(mv.subrange(i as int, mv.len() as int), key@),
                    decreases ms.len() - i,
                {
                    let ghost rest = mv.subrange(i as int, mv.len() as int);
                    assert(rest[0] == mv[i as int]);
                    assert(rest.drop_first() =~= mv.subrange(i + 1, mv.len() as int));
                    if str_eq(ms[i].0.as_str(), key) {
                        return Some(&ms[i].1);
                    }
                    i = i + 1;
                }
                None
            },
            _ => None,
        }
    }

    /// `Value::as_str`, copied out.
    pub fn text(&self) -> (r: Option<String>)
        ensures
            match r {
                Some(s) => self@ == JsonView::Str(s@),
                None => !(self@ is Str),
            },
    {
        match self {
            JsonValue::Str(s) => Some(to_owned(s.as_str())),
            _ => None,
        }
    }

    /// `Value::as_array`.
    pub fn items(&self) -> (r: Option<&Vec<JsonValue>>)
        ensures
            match r {
                Some(a) => self@ == JsonView::Array(a@.map_values(|x: JsonValue| x@)),
                None => !(self@ is Array),
            },
    {
        match self {
            JsonValue::Array(a) => {
                proof {
                    let s = match self@ {
                        JsonView::Array(s) => s,
                        _ => Seq::empty(),
                    };
                    assert(s =~= a@.map_values(|x: JsonValue| x@));
                }
                Some(a)
            },
            _ => None,
        }
    }

    /// `Value::is_number`.
    pub fn is_number(&self) -> (r: bool)
        ensures
            r == (self@ is Number),
    {
        match self {
            JsonValue::Number => true,
            _ => false,
        }
    }

    /// `Value::is_object`.
    pub fn is_object(&self) -> (r: bool)
        ensures
            r == (self@ is Object),
    {
        match self {
            JsonValue::Object(_) => true,
            _ => false,
        }
    }

    /// `Value::is_null`.
    pub fn is_null(&self) -> (r: bool)
        ensures
            r == (self@ is Null),
    {
        match self {
            JsonValue::Null => true,
            _ => false,
        }
    }
}

/// `get(key).and_then(as_str)`, copied out.
pub fn text_member(v: &JsonValue, key: &str) -> (r: Option<String>)
    ensures
        match r {
            Some(s) => text_of(member(v@, key@)) == Some(s@),
            None => text_of(member(v@, key@)) is None,
        },
{
    match v.get(key) {
        Some(x) => x.text(),
        None => None,
    }
}

/// `get(a).or_else(|| get(b)).and_then(as_str)`, copied out.
pub fn text_member_or(v: &JsonValue, a: &str, b: &str) -> (r: Option<String>)
    ensures
        match r {
            Some(s) => text_of(member_or(v@, a@, b@)) == Some(s@),
            None => text_of(member_or(v@, a@, b@)) is None,
        },
{
    match v.get(a) {
        Some(x) => x.text(),
        None => text_member(v, b),
    }
}

} // verus!
