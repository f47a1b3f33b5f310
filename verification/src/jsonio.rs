//! Reading and writing JSON text with `serde_json`.
//!
//! `serde_json` turns text into its own `Value` and a `Value` into text. This module
//! carries a `Value` level by level into a [`Json`] and back. What `serde_json`
//! computes is named here, not described: the contracts say which call produced
//! which text or document, and nothing of JSON's grammar.

use crate::json::{items_view, lemma_array_view, lemma_object_view, members_view, Json, JsonValue};
use vstd::prelude::*;

verus! {

/// `serde_json::Value`, carried through as it is: what it holds is read with
/// [`peel`] and named by [`value_json`].
#[verifier::external_type_specification]
#[verifier::external_body]
pub struct ExValue(serde_json::Value);

/// One level of a document: a scalar as it is, or the children of an array or of an
/// object, each still of type `T`.
pub enum Layer<T> {
    Null,
    Bool(bool),
    Uint(u64),
    Int(i64),
    Decimal(String),
    Str(String),
    Array(Vec<T>),
    Object(Vec<(String, T)>),
}

/// The document that a `serde_json::Value` holds: scalars by their value, a number
/// outside `u64` and `i64` by the text printed for it, the members of an object in
/// the order in which its map hands them out.
pub uninterp spec fn value_json(v: serde_json::Value) -> JsonValue;

/// What `serde_json::from_slice` makes of `bytes`: the document read, or the text of
/// the error.
pub uninterp spec fn json_parse(bytes: Seq<u8>) -> Result<JsonValue, Seq<char>>;

/// The text that `serde_json` prints for a `Value` that holds `j`.
pub uninterp spec fn json_text(j: JsonValue) -> Seq<char>;

/// The members that a `serde_json::Map` holds, in its order, after it has collected
/// `members` in theirs.
pub uninterp spec fn stored_members(members: Seq<(Seq<char>, JsonValue)>) -> Seq<
    (Seq<char>, JsonValue),
>;

/// The number that `serde_json` reads from `text`, or `null` where it reads none.
pub uninterp spec fn stored_decimal(text: Seq<char>) -> JsonValue;

/// The document of one level whose children stand for the documents `f` gives.
pub open spec fn layer_json<T>(l: Layer<T>, f: spec_fn(T) -> JsonValue) -> JsonValue {
    match l {
        Layer::Null => JsonValue::Null,
        Layer::Bool(b) => JsonValue::Bool(b),
        Layer::Uint(n) => JsonValue::Uint(n),
        Layer::Int(n) => JsonValue::Int(n),
        Layer::Decimal(t) => JsonValue::Decimal(t@),
        Layer::Str(s) => JsonValue::Str(s@),
        Layer::Array(items) => JsonValue::Array(Seq::new(items@.len(), |i: int| f(items@[i]))),
        Layer::Object(members) => JsonValue::Object(
            Seq::new(members@.len(), |i: int| (members@[i].0@, f(members@[i].1))),
        ),
    }
}

/// What a `Value` holds once it is built from one level of a document: a
/// non-negative integer is unsigned, a decimal is read from its text, and the
/// members of an object are those its map keeps.
pub open spec fn stored(j: JsonValue) -> JsonValue {
    match j {
        JsonValue::Int(n) => if n >= 0 {
            JsonValue::Uint(n as u64)
        } else {
            JsonValue::Int(n)
        },
        JsonValue::Decimal(t) => stored_decimal(t),
        JsonValue::Object(members) => JsonValue::Object(stored_members(members)),
        other => other,
    }
}

/// What a `Value` holds once it is built from the whole of `j`, innermost level
/// first.
pub open spec fn canonical(j: JsonValue) -> JsonValue
    decreases j, 1int,
{
    match j {
        JsonValue::Array(items) => stored(JsonValue::Array(canonical_items(items))),
        JsonValue::Object(members) => stored(JsonValue::Object(canonical_members(members))),
        other => stored(other),
    }
}

/// [`canonical`] of each item.
pub open spec fn canonical_items(items: Seq<JsonValue>) -> Seq<JsonValue>
    decreases items, 0int,
{
    Seq::new(
        items.len(),
        |i: int|
            if 0 <= i < items.len() {
                canonical(items[i])
            } else {
                JsonValue::Null
            },
    )
}

/// [`canonical`] of each member's value, under the member's key.
pub open spec fn canonical_members(members: Seq<(Seq<char>, JsonValue)>) -> Seq<
    (Seq<char>, JsonValue),
>
    decreases members, 0int,
{
    Seq::new(
        members.len(),
        |i: int|
            if 0 <= i < members.len() {
                (members[i].0, canonical(members[i].1))
            } else {
                (Seq::empty(), JsonValue::Null)
            },
    )
}

/// What `serde_json` makes of JSON text given as characters: of its UTF-8 bytes.
pub open spec fn text_parse(text: Seq<char>) -> Result<JsonValue, Seq<char>> {
    json_parse(vstd::utf8::encode_utf8(text))
}

/// The JSON text of a document: what `serde_json` prints for the `Value` built
/// from it.
pub open spec fn rendered(j: JsonValue) -> Seq<char> {
    json_text(canonical(j))
}

/// Calls `serde_json::from_slice` for a `Value`. The result is named by
/// [`json_parse`]: the document of the `Value` read, or the error's text.
#[verifier::external_body]
fn parse_value(bytes: &[u8]) -> (r: Result<serde_json::Value, String>)
    ensures
        match r {
            Ok(v) => json_parse(bytes@) == Ok::<JsonValue, Seq<char>>(value_json(v)),
            Err(e) => json_parse(bytes@) == Err::<JsonValue, Seq<char>>(e@),
        },
{
    serde_json::from_slice::<serde_json::Value>(bytes).map_err(|e| e.to_string())
}

/// Takes the outermost level off a `serde_json::Value`, one arm for each of its
/// variants; a number goes by `Number::as_u64`, `Number::as_i64` and its printed
/// text. The level, with each child standing for its document, is the document of
/// the `Value`.
#[verifier::external_body]
fn peel<'a>(v: &'a serde_json::Value) -> (l: Layer<&'a serde_json::Value>)
    ensures
        layer_json(l, |x: &serde_json::Value| value_json(*x)) == value_json(*v),
{
    match v {
        serde_json::Value::Null => Layer::Null,
        serde_json::Value::Bool(b) => Layer::Bool(*b),
        serde_json::Value::Number(n) => match (n.as_u64(), n.as_i64()) {
            (Some(u), _) => Layer::Uint(u),
            (None, Some(i)) => Layer::Int(i),
            (None, None) => Layer::Decimal(n.to_string()),
        },
        serde_json::Value::String(s) => Layer::Str(s.clone()),
        serde_json::Value::Array(a) => Layer::Array(a.iter().collect()),
        serde_json::Value::Object(o) => Layer::Object(o.iter().map(|(k, x)| (k.clone(), x)).collect()),
    }
}

/// Builds a `serde_json::Value` from one level, one arm for each variant; a decimal
/// is read with `serde_json::from_str` and is `null` where that fails, and the
/// members of an object are collected into a `serde_json::Map`. A non-negative
/// `i64` becomes an unsigned number, as `Value::from` makes it; what a decimal and
/// an object become is named by [`stored_decimal`] and [`stored_members`]; every
/// other level is held as it was given.
#[verifier::external_body]
fn wrap(l: Layer<serde_json::Value>) -> (v: serde_json::Value)
    ensures
        match l {
            Layer::Int(n) => value_json(v) == if n >= 0 {
                JsonValue::Uint(n as u64)
            } else {
                JsonValue::Int(n)
            },
            Layer::Decimal(t) => value_json(v) == stored_decimal(t@),
            Layer::Object(members) => value_json(v) == JsonValue::Object(
                stored_members(
                    Seq::new(members@.len(), |i: int| (members@[i].0@, value_json(members@[i].1))),
                ),
            ),
            _ => value_json(v) == layer_json(l, |x: serde_json::Value| value_json(x)),
        },
{
    match l {
        Layer::Null => serde_json::Value::Null,
        Layer::Bool(b) => serde_json::Value::Bool(b),
        Layer::Uint(n) => serde_json::Value::from(n),
        Layer::Int(n) => serde_json::Value::from(n),
        Layer::Decimal(t) => serde_json::from_str::<serde_json::Number>(&t).map_or(
            serde_json::Value::Null,
            serde_json::Value::Number,
        ),
        Layer::Str(s) => serde_json::Value::String(s),
        Layer::Array(a) => serde_json::Value::Array(a),
        Layer::Object(o) => serde_json::Value::Object(o.into_iter().collect()),
    }
}

/// Calls `to_string` on a `serde_json::Value`, which prints it as compact JSON
/// text. The text is named by [`json_text`].
#[verifier::external_body]
fn value_text(v: &serde_json::Value) -> (t: String)
    ensures
        t@ == json_text(value_json(*v)),
{
    v.to_string()
}

/// Carries a `Value` over into a [`Json`], level by level.
fn from_value(v: &serde_json::Value) -> (j: Json)
    ensures
        j@ == value_json(*v),
    decreases value_json(*v),
{
    let ghost doc = value_json(*v);
    match peel(v) {
        Layer::Null => Json::Null,
        Layer::Bool(b) => Json::Bool(b),
        Layer::Uint(n) => Json::Uint(n),
        Layer::Int(n) => Json::Int(n),
        Layer::Decimal(t) => Json::Decimal(t),
        Layer::Str(s) => Json::Str(s),
        Layer::Array(children) => {
            let mut items: Vec<Json> = Vec::new();
            let mut i: usize = 0;
            while i < children.len()
                invariant
                    i <= children.len(),
                    items.len() == i,
                    doc == value_json(*v),
                    doc is Array,
                    doc->Array_0.len() == children.len(),
                    forall|k: int|
                        0 <= k < children.len() ==> doc->Array_0[k] == value_json(*children[k]),
                    forall|k: int| 0 <= k < i ==> items[k]@ == value_json(*children[k]),
                decreases children.len() - i,
            {
                assert(decreases_to!(doc => doc->Array_0));
                assert(decreases_to!(doc->Array_0 => doc->Array_0[i as int]));
                items.push(from_value(children[i]));
                i += 1;
            }
            proof {
                lemma_array_view(items);
                assert(items_view(items@) =~= doc->Array_0);
            }
            Json::Array(items)
        },
        Layer::Object(children) => {
            let mut members: Vec<(String, Json)> = Vec::new();
            let mut i: usize = 0;
            while i < children.len()
                invariant
                    i <= children.len(),
                    members.len() == i,
                    doc == value_json(*v),
                    doc is Object,
                    doc->Object_0.len() == children.len(),
                    forall|k: int|
                        0 <= k < children.len() ==> doc->Object_0[k] == (
                            children[k].0@,
                            value_json(*children[k].1),
                        ),
                    forall|k: int|
                        0 <= k < i ==> members[k].0@ == children[k].0@ && members[k].1@
                            == value_json(*children[k].1),
                decreases children.len() - i,
            {
                assert(decreases_to!(doc => doc->Object_0));
                assert(decreases_to!(doc->Object_0 => doc->Object_0[i as int]));
                assert(decreases_to!(doc->Object_0[i as int] => doc->Object_0[i as int].1));
                let child = from_value(children[i].1);
                members.push((children[i].0.clone(), child));
                i += 1;
            }
            proof {
                lemma_object_view(members);
                assert(members_view(members@) =~= doc->Object_0);
            }
            Json::Object(members)
        },
    }
}

/// Builds the `Value` of a [`Json`], innermost level first.
fn to_value(j: &Json) -> (v: serde_json::Value)
    ensures
        value_json(v) == canonical(j@),
    decreases j,
{
    match j {
        Json::Null => wrap(Layer::Null),
        Json::Bool(b) => wrap(Layer::Bool(*b)),
        Json::Uint(n) => wrap(Layer::Uint(*n)),
        Json::Int(n) => wrap(Layer::Int(*n)),
        Json::Decimal(t) => wrap(Layer::Decimal(t.clone())),
        Json::Str(s) => wrap(Layer::Str(s.clone())),
        Json::Array(items) => {
            let mut children: Vec<serde_json::Value> = Vec::new();
            let mut i: usize = 0;
            while i < items.len()
                invariant
                    *j == Json::Array(*items),
                    i <= items.len(),
                    children.len() == i,
                    forall|k: int| 0 <= k < i ==> value_json(children[k]) == canonical(items[k]@),
                decreases items.len() - i,
            {
                assert(decreases_to!(*j => j->Array_0));
                assert(decreases_to!(*items => items[i as int]));
                children.push(to_value(&items[i]));
                i += 1;
            }
            let v = wrap(Layer::Array(children));
            proof {
                lemma_array_view(*items);
                assert(value_json(v)->Array_0 =~= canonical_items(items_view(items@)));
            }
            v
        },
        Json::Object(members) => {
            let mut children: Vec<(String, serde_json::Value)> = Vec::new();
            let mut i: usize = 0;
            while i < members.len()
                invariant
                    *j == Json::Object(*members),
                    i <= members.len(),
                    children.len() == i,
                    forall|k: int|
                        0 <= k < i ==> children[k].0@ == members[k].0@ && value_json(
                            children[k].1,
                        ) == canonical(members[k].1@),
                decreases members.len() - i,
            {
                assert(decreases_to!(*j => j->Object_0));
                assert(decreases_to!(*members => members[i as int]));
                assert(decreases_to!(members[i as int] => members[i as int].1));
                let child = to_value(&members[i].1);
                children.push((members[i].0.clone(), child));
                i += 1;
            }
            let ghost given = Seq::new(
                children@.len(),
                |k: int| (children@[k].0@, value_json(children@[k].1)),
            );
            let v = wrap(Layer::Object(children));
            proof {
                lemma_object_view(*members);
                assert(given =~= canonical_members(members_view(members@)));
            }
            v
        },
    }
}

impl Json {
    /// Reads a document from JSON text given as bytes.
    ///
    /// Returns what `serde_json` reads: the document, or the text of its error.
    pub fn parse(bytes: &[u8]) -> (r: Result<Json, String>)
        ensures
            match r {
                Ok(j) => json_parse(bytes@) == Ok::<JsonValue, Seq<char>>(j@),
                Err(e) => json_parse(bytes@) == Err::<JsonValue, Seq<char>>(e@),
            },
    {
        match parse_value(bytes) {
            Ok(v) => Ok(from_value(&v)),
            Err(e) => Err(e),
        }
    }

    /// Reads a document from JSON text.
    pub fn parse_text(text: &str) -> (r: Result<Json, String>)
        ensures
            match r {
                Ok(j) => text_parse(text@) == Ok::<JsonValue, Seq<char>>(j@),
                Err(e) => text_parse(text@) == Err::<JsonValue, Seq<char>>(e@),
            },
    {
        Json::parse(text.as_bytes())
    }

    /// Writes the document as compact JSON text.
    pub fn to_text(&self) -> (t: String)
        ensures
            t@ == rendered(self@),
    {
        let v = to_value(self);
        value_text(&v)
    }
}

} // verus!
