use codemode::error::ScriptError;
use codemode::json::{parse_or_null, reply_text};
use codemode::wire::{fetch_args, parse_call_args, parse_fetch_args, ScriptArg};
use codemode::FetchArgs;
use serde_json::Value;

fn text(s: &str) -> ScriptArg {
    ScriptArg::Text(s.encode_utf16().collect())
}

#[test]
fn call_arguments_are_read() {
    let (name, args) = parse_call_args(&[text("stripe__refund"), text("{\"id\": 20}")]);
    assert_eq!(name, "stripe__refund");
    assert_eq!(args["id"], Value::from(20));
}

#[test]
fn missing_call_arguments_have_defaults() {
    let (name, args) = parse_call_args(&[]);
    assert_eq!(name, "");
    assert_eq!(reply_text(&args), "{}");
    let (name, args) = parse_call_args(&[ScriptArg::Other, ScriptArg::Other]);
    assert_eq!(name, "");
    assert_eq!(reply_text(&args), "{}");
}

#[test]
fn call_arguments_that_are_no_json_are_null() {
    let (name, args) = parse_call_args(&[text("t"), text("{nope")]);
    assert_eq!(name, "t");
    assert_eq!(args, Value::Null);
}

#[test]
fn lone_surrogates_are_written_as_escapes() {
    let (name, _) = parse_call_args(&[ScriptArg::Text(vec![0x61, 0xd800, 0x62])]);
    assert_eq!(name, "a\\uD800b");
    let (name, _) = parse_call_args(&[text("\u{1F600}")]);
    assert_eq!(name, "\u{1F600}");
}

fn name_of(units: Vec<u16>) -> String {
    parse_call_args(&[ScriptArg::Text(units)]).0
}

#[test]
fn every_code_unit_is_read() {
    for unit in 0..=u16::MAX {
        let expected = match char::from_u32(unit as u32) {
            Some(c) => c.to_string(),
            None => format!("\\u{unit:04X}"),
        };
        assert_eq!(name_of(vec![unit]), expected);
    }
    assert_eq!(name_of(vec![0xd83d, 0xde00]), "\u{1F600}");
    assert_eq!(name_of(vec![0xdbff, 0xdfff]), "\u{10FFFF}");
    assert_eq!(name_of(vec![0xde00, 0xd83d]), "\\uDE00\\uD83D");
    assert_eq!(name_of(vec![0xd83d, 0xd83d, 0xde00]), "\\uD83D\u{1F600}");
}

#[test]
fn every_character_is_read_back() {
    for c in ['a', '\u{ff}', '\u{d7ff}', '\u{e000}', '\u{ffff}', '\u{10000}', '\u{10ffff}'] {
        let (name, _) = parse_call_args(&[text(&format!("<{c}>"))]);
        assert_eq!(name, format!("<{c}>"));
    }
}

#[test]
fn an_empty_object_is_read_as_one() {
    let (_, args) = parse_call_args(&[text("t"), text("{}")]);
    assert_eq!(reply_text(&args), "{}");
}

#[test]
fn what_was_read_of_a_fetch_decides() {
    let some = |text: &str| Some(text.to_string());
    assert_eq!(
        fetch_args(some("r1"), Some(5), Some(7), some("a.b")),
        Ok(FetchArgs {
            cursor: "r1".to_string(),
            offset: 5,
            len: 7,
            projection: Some("a.b".to_string()),
        })
    );
    assert_eq!(
        fetch_args(some("r1"), None, None, None),
        Ok(FetchArgs { cursor: "r1".to_string(), offset: 0, len: 0, projection: None })
    );
    assert_eq!(fetch_args(None, Some(5), Some(7), None), Err(ScriptError::EmptyCursor));
    assert_eq!(fetch_args(some(""), Some(5), Some(7), None), Err(ScriptError::EmptyCursor));
}

#[test]
fn replies_are_compact_json() {
    assert_eq!(reply_text(&parse_or_null(" { \"b\" : [ 1, null ] } ")), "{\"b\":[1,null]}");
    assert_eq!(reply_text(&parse_or_null("nope")), "null");
    assert_eq!(reply_text(&Value::from("a\"b")), "\"a\\\"b\"");
}

#[test]
fn fetch_arguments_are_read() {
    let asked = parse_fetch_args(
        true,
        &[text("{\"cursor\":\"r1\",\"offset\":5,\"len\":7,\"projection\":\"a.b\"}")],
    );
    assert_eq!(
        asked,
        Ok(FetchArgs {
            cursor: "r1".to_string(),
            offset: 5,
            len: 7,
            projection: Some("a.b".to_string()),
        })
    );
}

#[test]
fn fetch_arguments_have_defaults() {
    let expected = FetchArgs { cursor: "r1".to_string(), offset: 0, len: 0, projection: None };
    let asked = parse_fetch_args(true, &[text("{\"cursor\":\"r1\"}")]);
    assert_eq!(asked, Ok(expected.clone()));
    let asked = parse_fetch_args(
        true,
        &[text("{\"cursor\":\"r1\",\"offset\":-5,\"len\":\"7\",\"projection\":1}")],
    );
    assert_eq!(asked, Ok(expected));
}

#[test]
fn a_fetch_without_a_cursor_is_refused() {
    for args in [
        vec![],
        vec![ScriptArg::Other],
        vec![text("")],
        vec![text("null")],
        vec![text("{}")],
        vec![text("{\"cursor\":\"\"}")],
        vec![text("{\"cursor\":1}")],
    ] {
        assert_eq!(parse_fetch_args(true, &args), Err(ScriptError::EmptyCursor));
    }
}

#[test]
fn a_fetch_without_a_binding_is_refused() {
    let asked = parse_fetch_args(false, &[text("{\"cursor\":\"r1\"}")]);
    assert_eq!(asked, Err(ScriptError::FetchUnavailable));
    assert_eq!(parse_fetch_args(false, &[]), Err(ScriptError::FetchUnavailable));
}
