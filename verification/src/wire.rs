//! What a script hands to the host: the arguments of a tool call, and of a fetch.

use serde_json::Value;
use vstd::prelude::*;

use crate::engine::escaped_text;
use crate::engine::js_escaped;
use crate::error::ScriptError;
use crate::json::document_or_null;
use crate::json::json_member;
use crate::json::json_string;
use crate::json::json_text;
use crate::json::json_u64;
use crate::json::member_of;
use crate::json::parse_or_null;
use crate::json::string_of;
use crate::json::u64_of;

verus! {

/// One argument that a script passes to a host function.
#[derive(Debug, PartialEq, Eq)]
pub enum ScriptArg {
    /// A string, as its UTF-16 code units.
    Text(Vec<u16>),
    /// Any other value.
    Other,
}

/// The text of an argument, or a default where it is missing or no string.
pub open spec fn arg_text(args: Seq<ScriptArg>, i: int, default: Seq<char>) -> Seq<char> {
    if 0 <= i < args.len() {
        match args[i] {
            ScriptArg::Text(units) => js_escaped(units@),
            ScriptArg::Other => default,
        }
    } else {
        default
    }
}

/// The text of a script string, given its UTF-16 code units.
pub fn script_text(units: &[u16]) -> (text: String)
    ensures
        text@ == js_escaped(units@),
{
    escaped_text(units)
}

fn read_arg(args: &[ScriptArg], i: usize, default: &str) -> (text: String)
    ensures
        text@ == arg_text(args@, i as int, default@),
{
    if i < args.len() {
        match &args[i] {
            ScriptArg::Text(units) => script_text(units.as_slice()),
            ScriptArg::Other => default.to_owned(),
        }
    } else {
        default.to_owned()
    }
}

/// The tool that a call names: its first argument, or the empty name.
pub open spec fn call_name(args: Seq<ScriptArg>) -> Seq<char> {
    arg_text(args, 0, ""@)
}

/// The arguments that a call passes on: the document in its second argument, the empty object
/// where there is none, and `null` where it is no JSON.
pub open spec fn call_document(args: Seq<ScriptArg>) -> Seq<char> {
    document_or_null(arg_text(args, 1, "{}"@))
}

/// Reads the tool name and the JSON arguments of a call.
pub fn parse_call_args(args: &[ScriptArg]) -> (call: (String, Value))
    ensures
        call.0@ == call_name(args@),
        json_text(call.1) == call_document(args@),
        arg_text(args@, 1, "{}"@) == "{}"@ ==> json_text(call.1) == "{}"@,
        args@.len() > 0 ==> (args@[0] matches ScriptArg::Text(units) ==> call.0@ == js_escaped(
            units@,
        )),
        args@.len() > 1 ==> (args@[1] matches ScriptArg::Text(units) ==> json_text(call.1)
            == document_or_null(js_escaped(units@))),
{
    let name: String = read_arg(args, 0, "");
    let text: String = read_arg(args, 1, "{}");
    (name, parse_or_null(text.as_str()))
}

/// What `toolport.fetchResult` asks for.
#[derive(Debug, PartialEq, Eq)]
pub struct FetchArgs {
    pub cursor: String,
    pub offset: usize,
    pub len: usize,
    pub projection: Option<String>,
}

impl Clone for FetchArgs {
    fn clone(&self) -> (copy: Self)
        ensures
            copy == *self,
    {
        let projection: Option<String> = match &self.projection {
            Some(text) => Some(text.clone()),
            None => None,
        };
        FetchArgs {
            cursor: self.cursor.clone(),
            offset: self.offset,
            len: self.len,
            projection: projection,
        }
    }
}

/// The string member of a document under a key.
pub open spec fn string_member(document: Seq<char>, key: Seq<char>) -> Option<Seq<char>> {
    match json_member(document, key) {
        Some(member) => json_string(member),
        None => None,
    }
}

/// The numeric member of a document under a key.
pub open spec fn number_member(document: Seq<char>, key: Seq<char>) -> Option<u64> {
    match json_member(document, key) {
        Some(member) => json_u64(member),
        None => None,
    }
}

/// A number, zero where there is none.
pub open spec fn number_or_zero(number: Option<u64>) -> usize {
    match number {
        Some(number) => number as usize,
        None => 0,
    }
}

fn read_string(document: &Value, key: &str) -> (string: Option<String>)
    ensures
        string is Some <==> string_member(json_text(*document), key@) is Some,
        string matches Some(s) ==> string_member(json_text(*document), key@) == Some(s@),
        json_text(*document) == "null"@ || json_text(*document) == "{}"@ ==> string is None,
{
    match member_of(document, key) {
        Some(member) => match string_of(member) {
            Some(string) => Some(string.to_owned()),
            None => None,
        },
        None => None,
    }
}

fn read_number(document: &Value, key: &str) -> (number: Option<u64>)
    ensures
        number == number_member(json_text(*document), key@),
{
    match member_of(document, key) {
        Some(member) => u64_of(member),
        None => None,
    }
}

/// The document in the argument of a fetch: the empty object where there is none, and `null`
/// where it is no JSON.
pub open spec fn fetch_document(args: Seq<ScriptArg>) -> Seq<char> {
    document_or_null(arg_text(args, 0, "{}"@))
}

/// The cursor of a fetch, empty where there is none.
pub open spec fn fetch_cursor(document: Seq<char>) -> Seq<char> {
    match string_member(document, "cursor"@) {
        Some(cursor) => cursor,
        None => ""@,
    }
}

impl FetchArgs {
    /// Whether this is what a document asks for.
    pub open spec fn asked_by(self, document: Seq<char>) -> bool {
        &&& self.cursor@ == fetch_cursor(document)
        &&& self.offset == number_or_zero(number_member(document, "offset"@))
        &&& self.len == number_or_zero(number_member(document, "len"@))
        &&& self.projection is Some <==> string_member(document, "projection"@) is Some
        &&& self.projection matches Some(p) ==> string_member(document, "projection"@) == Some(p@)
    }
}

/// What a fetch asks for, given what was read of the document in its argument. Numbers that are
/// missing count as zero. A cursor that is missing or empty is refused.
pub fn fetch_args(
    cursor: Option<String>,
    offset: Option<u64>,
    len: Option<u64>,
    projection: Option<String>,
) -> (fetch: Result<FetchArgs, ScriptError>)
    ensures
        match fetch {
            Ok(asked) => {
                &&& cursor == Some(asked.cursor)
                &&& asked.cursor@.len() > 0
                &&& asked.offset == number_or_zero(offset)
                &&& asked.len == number_or_zero(len)
                &&& asked.projection == projection
                &&& offset matches Some(n) ==> n <= usize::MAX ==> asked.offset == n
                &&& offset is None ==> asked.offset == 0
                &&& len matches Some(n) ==> n <= usize::MAX ==> asked.len == n
                &&& len is None ==> asked.len == 0
            },
            Err(error) => {
                &&& error == ScriptError::EmptyCursor
                &&& cursor matches Some(text) ==> text@.len() == 0
            },
        },
{
    let cursor: String = match cursor {
        Some(text) => text,
        None => {
            return Err(ScriptError::EmptyCursor);
        },
    };
    if cursor.as_str().is_empty() {
        return Err(ScriptError::EmptyCursor);
    }
    let offset: u64 = match offset {
        Some(number) => number,
        None => 0,
    };
    let len: u64 = match len {
        Some(number) => number,
        None => 0,
    };
    Ok(
        FetchArgs {
            cursor: cursor,
            offset: offset as usize,
            len: len as usize,
            projection: projection,
        },
    )
}

/// Reads what a fetch asks for. It is refused where results cannot be fetched, and where the
/// cursor is missing or empty.
pub fn parse_fetch_args(available: bool, args: &[ScriptArg]) -> (fetch: Result<
    FetchArgs,
    ScriptError,
>)
    ensures
        match fetch {
            Ok(asked) => {
                &&& available
                &&& fetch_cursor(fetch_document(args@)).len() > 0
                &&& asked.asked_by(fetch_document(args@))
            },
            Err(error) => if available {
                error == ScriptError::EmptyCursor && fetch_cursor(fetch_document(args@)).len() == 0
            } else {
                error == ScriptError::FetchUnavailable
            },
        },
        arg_text(args@, 0, "{}"@) == "{}"@ ==> fetch is Err,
        fetch_document(args@) == "null"@ ==> fetch is Err,
{
    if !available {
        return Err(ScriptError::FetchUnavailable);
    }
    let text: String = read_arg(args, 0, "{}");
    let document: Value = parse_or_null(text.as_str());
    let cursor: Option<String> = read_string(&document, "cursor");
    let offset: Option<u64> = read_number(&document, "offset");
    let len: Option<u64> = read_number(&document, "len");
    let projection: Option<String> = read_string(&document, "projection");
    proof {
        reveal_strlit("");
    }
    fetch_args(cursor, offset, len, projection)
}

} // verus!
