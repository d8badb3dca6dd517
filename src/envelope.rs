use crate::error::{ErrorKind, PollKinesisError};
use crate::item::opt_text;
use vstd::prelude::*;

verus! {

#[verifier::external_type_specification]
#[verifier::external_body]
pub struct ExJsonValue(serde_json::Value);

/// The JSON document that serde_json reads from some bytes, if they hold one.
pub uninterp spec fn document_of(b: Seq<u8>) -> Option<serde_json::Value>;

/// The member of a JSON object with a given name, if the value is an object
/// that has one.
pub uninterp spec fn member_of(v: serde_json::Value, name: Seq<char>) -> Option<serde_json::Value>;

/// The text of a JSON value, if it is a string.
pub uninterp spec fn text_of(v: serde_json::Value) -> Option<Seq<char>>;

/// Relies on serde_json::from_slice: reads one JSON document from UTF-8 bytes,
/// failing on anything else.
#[verifier::external_body]
fn parse_document(b: &[u8]) -> (r: Option<serde_json::Value>)
    ensures
        r == document_of(b@),
{
    serde_json::from_slice(b).ok()
}

/// Relies on serde_json::Value::get with a name: the object's member of that
/// name, and none for a missing member or a value that is not an object.
#[verifier::external_body]
fn member(v: &serde_json::Value, name: &str) -> (r: Option<serde_json::Value>)
    ensures
        r == member_of(*v, name@),
{
    v.get(name).cloned()
}

/// Relies on serde_json::Value::as_str: the text of a string value, and none
/// for any other value.
#[verifier::external_body]
fn text(v: &serde_json::Value) -> (r: Option<String>)
    ensures
        opt_text(r) == text_of(*v),
{
    match v.as_str() {
        Some(t) => Some(t.to_owned()),
        None => None,
    }
}

/// Follows one member name from an optional value.
pub open spec fn step(v: Option<serde_json::Value>, name: Seq<char>) -> Option<serde_json::Value> {
    match v {
        Some(x) => member_of(x, name),
        None => None,
    }
}

/// The key of the changed entity that a change envelope names: the string at
/// `dynamodb.Keys.id.S` of the JSON document the bytes hold.
pub open spec fn envelope_key(b: Seq<u8>) -> Option<Seq<char>> {
    match step(step(step(step(document_of(b), "dynamodb"@), "Keys"@), "id"@), "S"@) {
        Some(x) => text_of(x),
        None => None,
    }
}

fn follow(v: Option<serde_json::Value>, name: &str) -> (r: Option<serde_json::Value>)
    ensures
        r == step(v, name@),
{
    match v {
        Some(x) => member(&x, name),
        None => None,
    }
}

/// Reads the primary key of the changed entity out of a raw change envelope.
pub fn change_key(data: &[u8]) -> (r: Result<String, PollKinesisError>)
    ensures
        match envelope_key(data@) {
            Some(k) => r is Ok && r->Ok_0@ == k,
            None => r is Err && r->Err_0.message@ == "malformed change record"@ && r->Err_0.kind
                == ErrorKind::Parse,
        },
{
    let doc = parse_document(data);
    let v = follow(follow(follow(follow(doc, "dynamodb"), "Keys"), "id"), "S");
    let key = match v {
        Some(x) => text(&x),
        None => None,
    };
    match key {
        Some(k) => Ok(k),
        None => Err(PollKinesisError::malformed_record()),
    }
}

} // verus!
