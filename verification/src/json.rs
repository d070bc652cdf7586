//! JSON values, and reading them from text with `serde_json`.

use serde_json::Value;
use vstd::prelude::*;

verus! {

/// Any JSON value, as `serde_json` reads it. It is carried unopened.
#[verifier::external_type_specification]
#[verifier::external_body]
pub struct ExValue(serde_json::Value);

/// A JSON number, as `serde_json` reads it. It is carried unopened.
#[verifier::external_type_specification]
#[verifier::external_body]
pub struct ExNumber(serde_json::Number);

/// What `serde_json` says of a text that it cannot read. It is carried unopened.
#[verifier::external_type_specification]
#[verifier::external_body]
pub struct ExError(serde_json::Error);

/// A JSON value. Numbers are carried, never looked into.
#[derive(Debug, PartialEq)]
pub enum Json {
    Null,
    Bool(bool),
    Number(serde_json::Number),
    String(String),
    Array(Vec<Json>),
    /// The members of an object, each with its key.
    Object(Vec<(String, Json)>),
}

/// Whether no two members have the same key.
pub open spec fn distinct_keys(members: Seq<(String, Json)>) -> bool {
    forall|i: int, j: int|
        0 <= i < j < members.len() ==> #[trigger] members[i].0@ != #[trigger] members[j].0@
}

/// What `serde_json::from_str` makes of a text that is to be any JSON value.
pub uninterp spec fn parsed_value(text: Seq<char>) -> Result<serde_json::Value, serde_json::Error>;

/// What `serde_json::from_str` makes of a text that is to be a JSON object.
pub uninterp spec fn parsed_object(text: Seq<char>) -> Result<serde_json::Value, serde_json::Error>;

/// What a `serde_json::Value` holds.
pub uninterp spec fn value_contents(value: serde_json::Value) -> Json;

/// The message of a `serde_json::Error`.
pub uninterp spec fn error_message(error: serde_json::Error) -> Seq<char>;

/// `serde_json::from_str`, for any JSON value. Claimed: the outcome depends on
/// the text alone.
#[verifier::external_body]
fn read_value(text: &str) -> (r: Result<serde_json::Value, serde_json::Error>)
    ensures
        r == parsed_value(text@),
{
    serde_json::from_str::<Value>(text)
}

/// `serde_json::from_str`, for a `serde_json::Map`. Claimed: the outcome depends
/// on the text alone, and what is read is an object.
#[verifier::external_body]
fn read_object(text: &str) -> (r: Result<serde_json::Value, serde_json::Error>)
    ensures
        r == parsed_object(text@),
        r matches Ok(value) ==> value_contents(value) is Object,
{
    serde_json::from_str::<serde_json::Map<String, Value>>(text).map(Value::Object)
}

/// Takes a `serde_json::Value` apart, variant by variant, items and members
/// included. Claimed: what comes out depends on the value alone, and no two
/// members of a `serde_json::Map` have the same key.
#[verifier::external_body]
fn json_of(value: serde_json::Value) -> (r: Json)
    ensures
        r == value_contents(value),
        r matches Json::Object(members) ==> distinct_keys(members@),
{
    match value {
        Value::Null => Json::Null,
        Value::Bool(flag) => Json::Bool(flag),
        Value::Number(number) => Json::Number(number),
        Value::String(text) => Json::String(text),
        Value::Array(items) => Json::Array(items.into_iter().map(json_of).collect()),
        Value::Object(members) => {
            Json::Object(members.into_iter().map(|(key, item)| (key, json_of(item))).collect())
        },
    }
}

/// The `Display` form of a `serde_json::Error`. Claimed: it depends on the error
/// alone.
#[verifier::external_body]
fn message_of(error: &serde_json::Error) -> (r: String)
    ensures
        r@ == error_message(*error),
{
    error.to_string()
}

/// Whether `r` is what reading `text` as any JSON value gives.
pub open spec fn is_parsed_json(text: Seq<char>, r: Result<Json, String>) -> bool {
    match parsed_value(text) {
        Ok(value) => r == Ok::<Json, String>(value_contents(value)),
        Err(error) => r matches Err(message) && message@ == error_message(error),
    }
}

/// Whether `r` is what reading `text` as a JSON object gives.
pub open spec fn is_parsed_members(
    text: Seq<char>,
    r: Result<Vec<(String, Json)>, String>,
) -> bool {
    match parsed_object(text) {
        Ok(value) => r matches Ok(members) && Json::Object(members) == value_contents(value),
        Err(error) => r matches Err(message) && message@ == error_message(error),
    }
}

/// Reads any JSON value.
pub fn parse_json(text: &str) -> (r: Result<Json, String>)
    ensures
        is_parsed_json(text@, r),
        r matches Ok(Json::Object(members)) ==> distinct_keys(members@),
{
    match read_value(text) {
        Ok(value) => Ok(json_of(value)),
        Err(error) => Err(message_of(&error)),
    }
}

/// Reads a JSON object, as its members.
pub fn parse_members(text: &str) -> (r: Result<Vec<(String, Json)>, String>)
    ensures
        is_parsed_members(text@, r),
        r matches Ok(members) ==> distinct_keys(members@),
{
    match read_object(text) {
        Ok(value) => match json_of(value) {
            Json::Object(members) => Ok(members),
            _ => Ok(Vec::new()),
        },
        Err(error) => Err(message_of(&error)),
    }
}

/// The value of the first member called `key`, if there is one.
pub open spec fn member(members: Seq<(String, Json)>, key: Seq<char>) -> Option<Json>
    decreases members.len(),
{
    if members.len() == 0 {
        None
    } else if members.first().0@ == key {
        Some(members.first().1)
    } else {
        member(members.drop_first(), key)
    }
}

/// Finds the first member called `key`.
pub(crate) fn position_of(members: &Vec<(String, Json)>, key: &str) -> (r: Option<usize>)
    ensures
        match r {
            Some(i) => i < members.len() && member(members@, key@) == Some(members@[i as int].1),
            None => member(members@, key@) is None,
        },
{
    let wanted = key.to_owned();
    let mut i: usize = 0;
    assert(members@.skip(0) == members@);
    while i < members.len()
        invariant
            i <= members.len(),
            wanted@ == key@,
            member(members@, key@) == member(members@.skip(i as int), key@),
        decreases members.len() - i,
    {
        if members[i].0 == wanted {
            return Some(i);
        }
        assert(members@.skip(i as int).drop_first() == members@.skip(i + 1));
        i = i + 1;
    }
    None
}

/// Takes the value of the first member called `key`.
pub(crate) fn take_member(members: Vec<(String, Json)>, key: &str) -> (r: Option<Json>)
    ensures
        r == member(members@, key@),
{
    let mut members = members;
    match position_of(&members, key) {
        Some(i) => Some(members.swap_remove(i).1),
        None => None,
    }
}

/// Where keys differ, a member is found by its key wherever it stands.
pub proof fn law_member_found(members: Seq<(String, Json)>, i: int)
    requires
        distinct_keys(members),
        0 <= i < members.len(),
    ensures
        member(members, members[i].0@) == Some(members[i].1),
    decreases members.len(),
{
    if i > 0 {
        let rest = members.drop_first();
        assert(forall|k: int| 0 <= k < rest.len() ==> rest[k] == members[k + 1]);
        law_member_found(rest, i - 1);
    }
}

/// A key that no member has is not found, whatever the order of the members.
pub proof fn law_member_missing(members: Seq<(String, Json)>, key: Seq<char>)
    ensures
        member(members, key) is None <==> forall|i: int|
            0 <= i < members.len() ==> #[trigger] members[i].0@ != key,
    decreases members.len(),
{
    if members.len() > 0 {
        let rest = members.drop_first();
        law_member_missing(rest, key);
        assert(forall|k: int| 0 <= k < rest.len() ==> rest[k] == members[k + 1]);
        if members.first().0@ == key {
            assert(members[0].0@ == key);
        } else if member(rest, key) is None {
            assert forall|i: int| 0 <= i < members.len() implies #[trigger] members[i].0@
                != key by {
                if i > 0 {
                    assert(rest[i - 1].0@ != key);
                }
            }
        } else {
            let k = choose|k: int| 0 <= k < rest.len() && rest[k].0@ == key;
            assert(members[k + 1].0@ == key);
        }
    }
}

} // verus!
