//! What the library has from `serde_json`: JSON documents, their text and their members.

use serde_json::Value;
use vstd::prelude::*;

use crate::text::precedes;

verus! {

/// `serde_json::Value`: a JSON document. It is known here by its text, see [`json_text`].
#[verifier::external_type_specification]
#[verifier::external_body]
pub struct ExValue(serde_json::Value);

/// What a JSON document holds, as the compact JSON text of it.
pub uninterp spec fn json_text(value: Value) -> Seq<char>;

/// The document that a JSON text denotes, as its compact text, or nothing where the text is
/// no JSON.
pub uninterp spec fn json_document(text: Seq<char>) -> Option<Seq<char>>;

/// The member of a document under a key, or nothing where it is no object with that key.
pub uninterp spec fn json_member(document: Seq<char>, key: Seq<char>) -> Option<Seq<char>>;

/// The string that a document is, or nothing where it is no string.
pub uninterp spec fn json_string(document: Seq<char>) -> Option<Seq<char>>;

/// The number that a document is, or nothing where it is no integer from 0 to `u64::MAX`.
pub uninterp spec fn json_u64(document: Seq<char>) -> Option<u64>;

/// The document that a text denotes, or `null` where the text is no JSON.
pub open spec fn document_or_null(text: Seq<char>) -> Seq<char> {
    match json_document(text) {
        Some(document) => document,
        None => "null"@,
    }
}

/// Whether JSON writes a text as it stands: no character of it is a control character, a
/// quotation mark or a backslash.
pub open spec fn needs_no_escape(text: Seq<char>) -> bool {
    forall|i: int|
        0 <= i < text.len() ==> ' ' <= #[trigger] text[i] && text[i] != '"' && text[i] != '\\'
}

/// The JSON text of a string that needs no escape.
pub open spec fn string_text(text: Seq<char>) -> Seq<char> {
    "\""@ + text + "\""@
}

/// The JSON text of an array of one document.
pub open spec fn array_text(item: Seq<char>) -> Seq<char> {
    "["@ + item + "]"@
}

/// The JSON text of an object with two members, the keys of which need no escape.
pub open spec fn object_text(
    key: Seq<char>,
    member: Seq<char>,
    next_key: Seq<char>,
    next_member: Seq<char>,
) -> Seq<char> {
    "{"@ + string_text(key) + ":"@ + member + ","@ + string_text(next_key) + ":"@ + next_member
        + "}"@
}

/// Calls `serde_json::from_str`. The claim: whether the text is read, and what the document
/// then holds, depend on the text alone; `{}` is read as the empty object.
#[verifier::external_body]
pub(crate) fn parse_json(text: &str) -> (value: Option<Value>)
    ensures
        value is Some <==> json_document(text@) is Some,
        value matches Some(v) ==> json_document(text@) == Some(json_text(v)),
        text@ == "{}"@ ==> value is Some && json_text(value->0) == "{}"@,
{
    serde_json::from_str(text).ok()
}

/// Gives `serde_json::Value::Null`. The claim: its text is `null`.
#[verifier::external_body]
pub(crate) fn null_value() -> (value: Value)
    ensures
        json_text(value) == "null"@,
{
    Value::Null
}

/// Gives `serde_json::Value::Bool`. The claim: its text is `true` or `false`.
#[verifier::external_body]
pub(crate) fn bool_value(b: bool) -> (value: Value)
    ensures
        json_text(value) == if b {
            "true"@
        } else {
            "false"@
        },
{
    Value::Bool(b)
}

/// Gives `serde_json::Value::String`. The claim: the text of a string that needs no escape is
/// the string between quotation marks.
#[verifier::external_body]
pub(crate) fn string_value(text: &str) -> (value: Value)
    requires
        needs_no_escape(text@),
    ensures
        json_text(value) == string_text(text@),
{
    Value::String(text.to_owned())
}

/// Gives `serde_json::Value::Array` with one item. The claim: its text is that of the item
/// between brackets.
#[verifier::external_body]
pub(crate) fn array_value(item: Value) -> (value: Value)
    ensures
        json_text(value) == array_text(json_text(item)),
{
    Value::Array(vec![item])
}

/// Calls `Value::from_iter` on two pairs of a key and a document. The claim: it gives the object
/// with these members, in the order of their keys, and its text is theirs between braces.
#[verifier::external_body]
pub(crate) fn object_value(key: &str, member: Value, next_key: &str, next_member: Value) -> (value:
    Value)
    requires
        needs_no_escape(key@),
        needs_no_escape(next_key@),
        precedes(key@, next_key@),
    ensures
        json_text(value) == object_text(
            key@,
            json_text(member),
            next_key@,
            json_text(next_member),
        ),
{
    Value::from_iter([(key, member), (next_key, next_member)])
}

/// Calls `serde_json::to_string`. The claim: it writes the compact text of the document, and
/// does not fail on a `Value`, whose keys are strings and whose numbers are finite.
#[verifier::external_body]
pub(crate) fn print_json(value: &Value) -> (text: Option<String>)
    ensures
        text is Some,
        text->0@ == json_text(*value),
{
    serde_json::to_string(value).ok()
}

/// Calls `Value::get` with a key. The claim: whether there is such a member, and what it
/// holds, depend on the document and the key alone; `null` and the empty object have none.
#[verifier::external_body]
pub(crate) fn member_of<'a>(value: &'a Value, key: &str) -> (member: Option<&'a Value>)
    ensures
        member is Some <==> json_member(json_text(*value), key@) is Some,
        member matches Some(m) ==> json_member(json_text(*value), key@) == Some(json_text(*m)),
        json_text(*value) == "null"@ || json_text(*value) == "{}"@ ==> member is None,
{
    value.get(key)
}

/// Calls `Value::as_str`. The claim: whether the document is a string, and which, depends on
/// what the document holds alone.
#[verifier::external_body]
pub(crate) fn string_of(value: &Value) -> (string: Option<&str>)
    ensures
        string is Some <==> json_string(json_text(*value)) is Some,
        string matches Some(s) ==> json_string(json_text(*value)) == Some(s@),
{
    value.as_str()
}

/// Calls `Value::as_u64`. The claim: whether the document is such a number, and which,
/// depends on what the document holds alone.
#[verifier::external_body]
pub(crate) fn u64_of(value: &Value) -> (number: Option<u64>)
    ensures
        number == json_u64(json_text(*value)),
{
    value.as_u64()
}

/// `Clone` of `serde_json::Value`: the copy holds the same document.
pub assume_specification[ <serde_json::Value as Clone>::clone ](value: &serde_json::Value) -> (copy:
    serde_json::Value)
    ensures
        json_text(copy) == json_text(*value),
;

/// Reads a JSON text, or gives `null` where it is no JSON.
pub fn parse_or_null(text: &str) -> (value: Value)
    ensures
        json_text(value) == document_or_null(text@),
        text@ == "{}"@ ==> json_text(value) == "{}"@,
{
    match parse_json(text) {
        Some(value) => value,
        None => null_value(),
    }
}

/// The compact text of a document, or `null` where it cannot be written.
pub fn reply_text(value: &Value) -> (text: String)
    ensures
        text@ == json_text(*value),
{
    match print_json(value) {
        Some(text) => text,
        None => "null".to_owned(),
    }
}

} // verus!
