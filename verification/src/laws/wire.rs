//! Laws of what a script hands to the host.

use vstd::prelude::*;

use crate::engine::is_high;
use crate::engine::is_low;
use crate::engine::js_escaped;
use crate::engine::pair_char;
use crate::json::document_or_null;
use crate::json::json_document;
use crate::json::json_member;
use crate::json::json_string;
use crate::json::json_u64;
use crate::wire::FetchArgs;
use crate::wire::ScriptArg;
use crate::wire::call_document;
use crate::wire::call_name;
use crate::wire::fetch_cursor;
use crate::wire::fetch_document;
use crate::wire::number_or_zero;

verus! {

/// The UTF-16 code units of a character.
pub open spec fn char_units(c: char) -> Seq<u16> {
    let n = c as int;
    if n < 0x10000 {
        seq![n as u16]
    } else {
        seq![
            (0xd800 + (n - 0x10000) / 0x400) as u16,
            (0xdc00 + (n - 0x10000) % 0x400) as u16,
        ]
    }
}

/// The UTF-16 code units of a text.
pub open spec fn text_units(text: Seq<char>) -> Seq<u16>
    decreases text.len(),
{
    if text.len() == 0 {
        seq![]
    } else {
        char_units(text[0]) + text_units(text.drop_first())
    }
}

proof fn lemma_char_is_read(c: char, rest: Seq<u16>)
    ensures
        js_escaped(char_units(c) + rest) == seq![c] + js_escaped(rest),
{
    let n = c as int;
    let units = char_units(c) + rest;
    assert(0 <= n <= 0xd7ff || 0xe000 <= n <= 0x10ffff);
    if n < 0x10000 {
        assert(units[0] == n);
        assert(units.skip(1) =~= rest);
    } else {
        assert(is_high(units[0]) && is_low(units[1]));
        assert(pair_char(units[0], units[1]) == c);
        assert(units.skip(2) =~= rest);
    }
}

/// A string that a script hands over is read as the text that it is, character by character.
pub proof fn law_texts_are_read_back(text: Seq<char>)
    ensures
        js_escaped(text_units(text)) == text,
    decreases text.len(),
{
    if text.len() == 0 {
        assert(text =~= seq![]);
    } else {
        lemma_char_is_read(text[0], text_units(text.drop_first()));
        law_texts_are_read_back(text.drop_first());
        assert(seq![text[0]] + text.drop_first() =~= text);
    }
}

/// What a document text stands for when it is handed over: the document that it denotes, and
/// `null` where it is no JSON.
pub proof fn law_documents_are_kept(text: Seq<char>)
    ensures
        json_document(text) matches Some(document) ==> document_or_null(text) == document,
        json_document(text) is None ==> document_or_null(text) == "null"@,
{
}

/// A call hands over the whole tool name and the whole document that the script gave, however
/// long they are, and whatever further arguments there are.
pub proof fn law_calls_are_read_whole(args: Seq<ScriptArg>, name: Seq<char>, text: Seq<char>)
    requires
        args.len() >= 2,
        args[0] matches ScriptArg::Text(units) && units@ == text_units(name),
        args[1] matches ScriptArg::Text(units) && units@ == text_units(text),
    ensures
        call_name(args) == name,
        json_document(text) matches Some(document) ==> call_document(args) == document,
        json_document(text) is None ==> call_document(args) == "null"@,
{
    law_texts_are_read_back(name);
    law_texts_are_read_back(text);
}

/// A string of a script that is no text, as it holds half of a surrogate pair, is handed over
/// with that half written as an escape, and the rest of it whole.
pub proof fn law_calls_are_read_by_unit(args: Seq<ScriptArg>, i: int, units: Vec<u16>)
    requires
        0 <= i < args.len(),
        args[i] == ScriptArg::Text(units),
    ensures
        i == 0 ==> call_name(args) == js_escaped(units@),
        i == 1 ==> call_document(args) == match json_document(js_escaped(units@)) {
            Some(document) => document,
            None => "null"@,
        },
        i == 0 ==> fetch_document(args) == match json_document(js_escaped(units@)) {
            Some(document) => document,
            None => "null"@,
        },
{
}

/// Only an argument that is missing or no string has a default: the empty name, and the empty
/// object.
pub proof fn law_missing_arguments_have_defaults(args: Seq<ScriptArg>)
    ensures
        args.len() == 0 || args[0] is Other ==> call_name(args) == ""@,
        args.len() <= 1 || args[1] is Other ==> call_document(args) == document_or_null("{}"@),
        args.len() == 0 || args[0] is Other ==> fetch_document(args) == document_or_null("{}"@),
{
}

/// A fetch reads the whole document that the script gave, however long it is.
pub proof fn law_fetches_are_read_whole(args: Seq<ScriptArg>, text: Seq<char>)
    requires
        args.len() >= 1,
        args[0] matches ScriptArg::Text(units) && units@ == text_units(text),
    ensures
        json_document(text) matches Some(document) ==> fetch_document(args) == document,
        json_document(text) is None ==> fetch_document(args) == "null"@,
{
    law_texts_are_read_back(text);
}

/// A number that a script asks for is taken as it is, if the machine can hold it.
pub proof fn law_numbers_are_taken_whole(n: u64)
    ensures
        n <= usize::MAX ==> number_or_zero(Some(n)) == n,
        number_or_zero(None) == 0,
{
}

/// A fetch asks for the place, the length, the cursor and the projection that stand in the
/// document, each as it stands there. A number that is missing or none counts as zero, and a
/// string that is missing or none is not asked for.
pub proof fn law_fetches_ask_for_what_is_written(asked: FetchArgs, document: Seq<char>)
    requires
        asked.asked_by(document),
    ensures
        json_member(document, "offset"@) matches Some(member) ==> (json_u64(member) matches Some(n)
            ==> n <= usize::MAX ==> asked.offset == n),
        json_member(document, "offset"@) matches Some(member) ==> json_u64(member) is None
            ==> asked.offset == 0,
        json_member(document, "offset"@) is None ==> asked.offset == 0,
        json_member(document, "len"@) matches Some(member) ==> (json_u64(member) matches Some(n)
            ==> n <= usize::MAX ==> asked.len == n),
        json_member(document, "len"@) matches Some(member) ==> json_u64(member) is None
            ==> asked.len == 0,
        json_member(document, "len"@) is None ==> asked.len == 0,
        json_member(document, "cursor"@) matches Some(member) ==> (
        json_string(member) matches Some(text) ==> asked.cursor@ == text),
        json_member(document, "projection"@) matches Some(member) ==> (
        json_string(member) matches Some(text) ==> asked.projection matches Some(p) && p@ == text),
        json_member(document, "projection"@) matches Some(member) ==> json_string(member) is None
            ==> asked.projection is None,
        json_member(document, "projection"@) is None ==> asked.projection is None,
{
}

/// The cursor of a fetch is the string that stands in the document, and empty where there is
/// none.
pub proof fn law_cursors_are_read_whole(document: Seq<char>)
    ensures
        json_member(document, "cursor"@) matches Some(member) ==> (
        json_string(member) matches Some(text) ==> fetch_cursor(document) == text),
        json_member(document, "cursor"@) matches Some(member) ==> json_string(member) is None
            ==> fetch_cursor(document).len() == 0,
        json_member(document, "cursor"@) is None ==> fetch_cursor(document).len() == 0,
{
    reveal_strlit("");
}

} // verus!
