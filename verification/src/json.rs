//! JSON values as the bridge reads and writes them, on top of `serde_json`.
use serde_json::Value;
use vstd::prelude::*;
use vstd::string::*;

verus! {

/// `serde_json::Value`, carried through unread where it sits inside an array.
#[verifier::external_type_specification]
#[verifier::external_body]
pub struct ExJsonValue(serde_json::Value);

/// `serde_json::Map`; what an object holds is named by [`object_contents`].
#[verifier::external_type_specification]
#[verifier::external_body]
#[verifier::reject_recursive_types(K)]
#[verifier::reject_recursive_types(V)]
pub struct ExJsonMap<K, V>(serde_json::Map<K, V>);

/// `serde_json::Number`, a JSON number kept exactly as it was read.
#[verifier::external_type_specification]
#[verifier::external_body]
pub struct ExJsonNumber(serde_json::Number);

/// `serde_json::Error`, the reason why a text is no JSON.
#[verifier::external_type_specification]
#[verifier::external_body]
pub struct ExJsonError(serde_json::Error);

/// A JSON object.
pub type JsonObject = serde_json::Map<String, serde_json::Value>;

/// A JSON value, one level deep: members of an object are reached through the
/// object, elements of an array are never looked at.
pub enum Json {
    Null,
    Bool(bool),
    Number(serde_json::Number),
    Text(String),
    Array(Vec<serde_json::Value>),
    Object(JsonObject),
}

/// What a [`Json`] stands for.
pub enum JsonView {
    Null,
    Bool(bool),
    Number(serde_json::Number),
    Text(Seq<char>),
    Array(Seq<serde_json::Value>),
    Object(Map<Seq<char>, JsonView>),
}

impl View for Json {
    type V = JsonView;

    open spec fn view(&self) -> JsonView {
        match self {
            Json::Null => JsonView::Null,
            Json::Bool(b) => JsonView::Bool(*b),
            Json::Number(n) => JsonView::Number(*n),
            Json::Text(s) => JsonView::Text(s@),
            Json::Array(items) => JsonView::Array(items@),
            Json::Object(o) => JsonView::Object(object_contents(*o)),
        }
    }
}

/// The members of a JSON object, by name.
pub uninterp spec fn object_contents(o: serde_json::Map<String, serde_json::Value>) -> Map<
    Seq<char>,
    JsonView,
>;

/// What `serde_json::from_str` makes of a text.
pub uninterp spec fn parsed_json(text: Seq<char>) -> Result<JsonView, serde_json::Error>;

/// The text that `serde_json::Error` displays.
pub uninterp spec fn json_error_text(e: serde_json::Error) -> Seq<char>;

/// The compact text that `serde_json` writes for an object.
pub uninterp spec fn object_text(contents: Map<Seq<char>, JsonView>) -> Seq<char>;

/// The JSON number that stands for an unsigned integer.
pub uninterp spec fn json_number(n: u64) -> serde_json::Number;

/// A number in floating point form, as `1` becomes `1.0`.
pub uninterp spec fn float_number(n: serde_json::Number) -> Option<serde_json::Number>;

/// Calls `serde_json::from_str` for a `serde_json::Value` and hands the value out one
/// level deep. The result is a function of the text alone.
#[verifier::external_body]
pub(crate) fn parse_json(text: &str) -> (r: Result<Json, serde_json::Error>)
    ensures
        (match r {
            Ok(j) => Ok(j@),
            Err(e) => Err(e),
        }) == parsed_json(text@),
{
    match serde_json::from_str(text) {
        Ok(Value::Null) => Ok(Json::Null),
        Ok(Value::Bool(b)) => Ok(Json::Bool(b)),
        Ok(Value::Number(n)) => Ok(Json::Number(n)),
        Ok(Value::String(s)) => Ok(Json::Text(s)),
        Ok(Value::Array(items)) => Ok(Json::Array(items)),
        Ok(Value::Object(o)) => Ok(Json::Object(o)),
        Err(e) => Err(e),
    }
}

/// Calls `to_string` on a `serde_json::Error`, whose `Display` names the fault and
/// where it stands.
#[verifier::external_body]
pub(crate) fn error_text(e: &serde_json::Error) -> (r: String)
    ensures
        r@ == json_error_text(*e),
{
    e.to_string()
}

/// Calls `serde_json::Map::new`: an object without members.
#[verifier::external_body]
pub(crate) fn new_object() -> (r: JsonObject)
    ensures
        object_contents(r) =~= Map::empty(),
{
    serde_json::Map::new()
}

/// Calls `serde_json::Map::get`: the member of that name, if there is one.
#[verifier::external_body]
pub(crate) fn get_member(o: &JsonObject, name: &str) -> (r: Option<Json>)
    ensures
        r is Some <==> object_contents(*o).contains_key(name@),
        r matches Some(j) ==> j@ == object_contents(*o)[name@],
{
    match o.get(name).cloned() {
        Some(Value::Null) => Some(Json::Null),
        Some(Value::Bool(b)) => Some(Json::Bool(b)),
        Some(Value::Number(n)) => Some(Json::Number(n)),
        Some(Value::String(s)) => Some(Json::Text(s)),
        Some(Value::Array(items)) => Some(Json::Array(items)),
        Some(Value::Object(m)) => Some(Json::Object(m)),
        None => None,
    }
}

/// Whether every member of an object is a text or an unsigned integer, and none bears the
/// name that `serde_json` keeps for raw JSON.
pub open spec fn flat(contents: Map<Seq<char>, JsonView>) -> bool {
    !contents.contains_key("$serde_json::private::RawValue"@) && forall|k: Seq<char>| #[trigger]
        contents.contains_key(k) ==> match contents[k] {
            JsonView::Text(_) => true,
            JsonView::Number(n) => exists|u: u64| n == json_number(u),
            _ => false,
        }
}

/// Whether a text reads as the object with these members.
pub open spec fn reads_back(text: Seq<char>, contents: Map<Seq<char>, JsonView>) -> bool {
    parsed_json(text) == Ok::<JsonView, serde_json::Error>(JsonView::Object(contents))
}

/// Calls `serde_json::Map::insert`: sets the member of that name, and drops the value
/// that stood there before.
#[verifier::external_body]
pub(crate) fn set_member(o: &mut JsonObject, name: String, value: Json)
    ensures
        object_contents(*final(o)) == object_contents(*old(o)).insert(name@, value@),
{
    let value = match value {
        Json::Null => Value::Null,
        Json::Bool(b) => Value::Bool(b),
        Json::Number(n) => Value::Number(n),
        Json::Text(s) => Value::String(s),
        Json::Array(items) => Value::Array(items),
        Json::Object(m) => Value::Object(m),
    };
    o.insert(name, value);
}

/// Calls `serde_json::Map::iter` and hands out a copy of each member: every member
/// once, in no order that is promised here.
#[verifier::external_body]
pub(crate) fn members(o: &JsonObject) -> (r: Vec<(String, Json)>)
    ensures
        forall|i: int, j: int| 0 <= i < j < r@.len() ==> r@[i].0@ != r@[j].0@,
        forall|i: int| #![trigger r@[i]]
            0 <= i < r@.len() ==> object_contents(*o).contains_key(r@[i].0@)
                && object_contents(*o)[r@[i].0@] == r@[i].1@,
        forall|k: Seq<char>| #[trigger]
            object_contents(*o).contains_key(k) ==> exists|i: int|
                0 <= i < r@.len() && #[trigger] r@[i].0@ == k,
{
    let members = o.iter().map(|(name, value)| match value.clone() {
        Value::Null => (name.clone(), Json::Null),
        Value::Bool(b) => (name.clone(), Json::Bool(b)),
        Value::Number(n) => (name.clone(), Json::Number(n)),
        Value::String(s) => (name.clone(), Json::Text(s)),
        Value::Array(items) => (name.clone(), Json::Array(items)),
        Value::Object(m) => (name.clone(), Json::Object(m)),
    });
    members.collect()
}

/// Calls `to_string` on a `serde_json::Value` made of an object: its compact JSON
/// text, in which members stand sorted by name, so that the text is a function of what
/// the object holds. Read again, a text whose members are texts and unsigned integers
/// gives back the same object. An object with a member `$serde_json::private::RawValue` is
/// left out: where that name comes first, `serde_json` reads the JSON inside the member's
/// text in place of the object.
#[verifier::external_body]
pub(crate) fn write_object(o: JsonObject) -> (r: String)
    ensures
        r@ == object_text(object_contents(o)),
        flat(object_contents(o)) ==> reads_back(r@, object_contents(o)),
{
    serde_json::Value::Object(o).to_string()
}

/// Calls `serde_json::Number::from` on a `u64`.
#[verifier::external_body]
pub(crate) fn number(n: u64) -> (r: serde_json::Number)
    ensures
        r == json_number(n),
{
    serde_json::Number::from(n)
}

/// Calls `serde_json::Number::as_f64` and `serde_json::Number::from_f64` on what it
/// gives: the same number in floating point form. Every number has one.
#[verifier::external_body]
pub(crate) fn as_float(n: &serde_json::Number) -> (r: Option<serde_json::Number>)
    ensures
        r == float_number(*n),
        r is Some,
{
    n.as_f64().and_then(serde_json::Number::from_f64)
}

/// `serde_json::Number::clone` copies the number.
pub assume_specification[ <serde_json::Number as Clone>::clone ](
    n: &serde_json::Number,
) -> (r: serde_json::Number)
    ensures
        r == *n,
;

/// Sets a member to a text.
pub(crate) fn set_text(o: &mut JsonObject, name: &str, value: &str)
    ensures
        object_contents(*final(o)) == object_contents(*old(o)).insert(
            name@,
            JsonView::Text(value@),
        ),
{
    set_member(o, name.to_owned(), Json::Text(value.to_owned()));
}

/// Sets a member to a number.
pub(crate) fn set_number(o: &mut JsonObject, name: &str, value: &serde_json::Number)
    ensures
        object_contents(*final(o)) == object_contents(*old(o)).insert(
            name@,
            JsonView::Number(*value),
        ),
{
    set_member(o, name.to_owned(), Json::Number(value.clone()));
}

} // verus!
