//! JSON objects of texts and numbers, built and written by `serde_json`.

use crate::text::join;
use crate::vector_store::StoreError;
use serde_json::{Map as JsonMap, Value};
use vstd::prelude::*;

verus! {

/// A JSON object of `serde_json`.
#[verifier::external_type_specification]
#[verifier::external_body]
#[verifier::reject_recursive_types(K)]
#[verifier::reject_recursive_types(V)]
pub struct ExJsonMap<K, V>(JsonMap<K, V>);

/// A JSON value of `serde_json`.
#[verifier::external_type_specification]
#[verifier::external_body]
pub struct ExJsonValue(Value);

/// An error of the JSON encoder.
#[verifier::external_type_specification]
#[verifier::external_body]
pub struct ExJsonError(serde_json::Error);

/// A JSON object with texts as names.
pub type JsonObject = JsonMap<String, Value>;

/// What a member of an object holds: a text, a whole number, or a value of
/// another kind, which is given by its JSON text.
pub ghost enum Field {
    Text(Seq<char>),
    Number(int),
    Other(Seq<char>),
}

/// The members of an object, by name.
pub uninterp spec fn json_members(object: JsonObject) -> Map<Seq<char>, Field>;

/// The text that the encoder writes for an object with these members, or `None`
/// where it fails.
pub uninterp spec fn json_object_text(members: Map<Seq<char>, Field>) -> Option<Seq<char>>;

/// No members.
pub open spec fn no_members() -> Map<Seq<char>, Field> {
    Map::empty()
}

/// An object without members, by `serde_json::Map::new`.
#[verifier::external_body]
fn new_object() -> (r: JsonObject)
    ensures
        json_members(r) == no_members(),
{
    JsonMap::new()
}

/// Binds a name to a text with `serde_json::Map::insert`, which replaces what the
/// name was bound to.
#[verifier::external_body]
fn put_text(object: &mut JsonObject, name: &str, text: &str)
    ensures
        json_members(*final(object)) == json_members(*old(object)).insert(
            name@,
            Field::Text(text@),
        ),
{
    object.insert(name.to_string(), Value::String(text.to_string()));
}

/// Binds a name to a number that is zero or more with `serde_json::Map::insert`.
#[verifier::external_body]
fn put_count(object: &mut JsonObject, name: &str, number: u64)
    ensures
        json_members(*final(object)) == json_members(*old(object)).insert(
            name@,
            Field::Number(number as int),
        ),
{
    object.insert(name.to_string(), Value::from(number));
}

/// Binds a name to a whole number with `serde_json::Map::insert`.
#[verifier::external_body]
fn put_integer(object: &mut JsonObject, name: &str, number: i64)
    ensures
        json_members(*final(object)) == json_members(*old(object)).insert(
            name@,
            Field::Number(number as int),
        ),
{
    object.insert(name.to_string(), Value::from(number));
}

/// Writes an object with `serde_json::to_string`. The object keeps its members
/// sorted by name and the encoder reads nothing else, so the text is named as a
/// function of the members.
#[verifier::external_body]
fn write_object(object: &JsonObject) -> (r: Result<String, serde_json::Error>)
    ensures
        match r {
            Ok(text) => json_object_text(json_members(*object)) == Some(text@),
            Err(_) => json_object_text(json_members(*object)) is None,
        },
{
    serde_json::to_string(object)
}

/// The words of an error of the JSON encoder, as its `to_string` gives them.
/// Nothing is claimed of them.
#[verifier::external_body]
fn json_error_words(error: &serde_json::Error) -> String {
    error.to_string()
}

/// A member of a document to write: a name with a text or a number.
#[derive(Debug)]
pub enum Member {
    Text { name: String, text: String },
    Count { name: String, number: u64 },
    Integer { name: String, number: i64 },
}

impl Member {
    /// The name of the member.
    pub open spec fn name(&self) -> Seq<char> {
        match self {
            Member::Text { name, .. } => name@,
            Member::Count { name, .. } => name@,
            Member::Integer { name, .. } => name@,
        }
    }

    /// What the member holds.
    pub open spec fn field(&self) -> Field {
        match self {
            Member::Text { text, .. } => Field::Text(text@),
            Member::Count { number, .. } => Field::Number(*number as int),
            Member::Integer { number, .. } => Field::Number(*number as int),
        }
    }
}

/// The object that the first `n` members make: a later member replaces an earlier
/// one of its name.
pub open spec fn members_map(members: Seq<Member>, n: nat) -> Map<Seq<char>, Field>
    decreases n,
{
    if n == 0 || n > members.len() {
        Map::empty()
    } else {
        members_map(members, (n - 1) as nat).insert(members[n - 1].name(), members[n - 1].field())
    }
}

/// The JSON text of the object that the members make, or `None` where the encoder
/// fails.
pub open spec fn document_spec(members: Seq<Member>) -> Option<Seq<char>> {
    json_object_text(members_map(members, members.len()))
}

/// Writes the object that the members make as JSON. A failure of the encoder is
/// an error of the backend.
pub fn write_document(members: &Vec<Member>) -> (r: Result<String, StoreError>)
    ensures
        match r {
            Ok(text) => document_spec(members@) == Some(text@),
            Err(e) => document_spec(members@) is None && e is Backend,
        },
{
    let mut object = new_object();
    let mut i: usize = 0;
    while i < members.len()
        invariant
            i <= members@.len(),
            json_members(object) == members_map(members@, i as nat),
        decreases members@.len() - i,
    {
        match &members[i] {
            Member::Text { name, text } => put_text(&mut object, name.as_str(), text.as_str()),
            Member::Count { name, number } => put_count(&mut object, name.as_str(), *number),
            Member::Integer { name, number } => put_integer(&mut object, name.as_str(), *number),
        }
        i = i + 1;
    }
    match write_object(&object) {
        Ok(text) => Ok(text),
        Err(error) => {
            let words = json_error_words(&error);
            Err(StoreError::Backend(join("Failed to encode a document as JSON: ", words.as_str())))
        },
    }
}

} // verus!
