use codemode::names::{
    is_code_mode_meta_tool, is_js_ident_start, js_string_literal, snake_to_camel,
    split_exposed_name,
};

#[test]
fn js_string_literal_escapes_quotes_and_newlines() {
    assert_eq!(js_string_literal("a'b\\c\nd"), "'a\\'b\\\\c\\nd'");
}

#[test]
fn js_string_literal_escapes_line_separators() {
    assert_eq!(js_string_literal(""), "''");
    assert_eq!(js_string_literal("\r\u{2028}\u{2029}"), "'\\r\\u2028\\u2029'");
    assert_eq!(js_string_literal("\"\t\u{e9}"), "'\"\t\u{e9}'");
}

#[test]
fn snake_to_camel_basic() {
    assert_eq!(snake_to_camel("create_refund"), "createRefund");
    assert_eq!(snake_to_camel("alreadyCamel"), "alreadyCamel");
    assert_eq!(snake_to_camel("a_b_c"), "aBC");
}

#[test]
fn snake_to_camel_uppercases_what_follows_underscores() {
    assert_eq!(snake_to_camel(""), "");
    assert_eq!(snake_to_camel("___"), "");
    assert_eq!(snake_to_camel("_private__name_"), "PrivateName");
    assert_eq!(snake_to_camel("v_2_x"), "v2X");
    assert_eq!(snake_to_camel("gro_\u{df}e"), "groSSe");
    assert_eq!(snake_to_camel("a_\u{e9}t\u{e9}"), "a\u{c9}t\u{e9}");
}

#[test]
fn camel_names_hold_no_underscores() {
    for name in ["create_refund", "_a__b_", "___", "plain", "x_1_$"] {
        let camel = snake_to_camel(name);
        assert!(!camel.contains('_'));
        assert_eq!(snake_to_camel(&camel), camel);
        assert_eq!(camel == name, !name.contains('_'));
    }
}

#[test]
fn no_character_maps_to_an_underscore() {
    for c in '\0'..=char::MAX {
        let camel = snake_to_camel(&format!("x_{c}"));
        assert!(camel.starts_with('x') && !camel.contains('_'), "{c:?}");
        assert_eq!(camel.len() > 1, c != '_', "{c:?}");
    }
    let name = "gro_\u{df}_\u{149}_\u{fb03}";
    let camel = snake_to_camel(name);
    assert_eq!(camel, "groSS\u{2bc}NFFI");
    assert_eq!(snake_to_camel(&camel), camel);
}

#[test]
fn split_exposed_name_uses_first_separator() {
    assert_eq!(
        split_exposed_name("stripe__create_refund"),
        Some(("stripe", "create_refund"))
    );
    assert_eq!(
        split_exposed_name("s__tool__extra"),
        Some(("s", "tool__extra"))
    );
    assert_eq!(split_exposed_name("nosep"), None);
}

#[test]
fn split_exposed_name_at_the_edges() {
    assert_eq!(split_exposed_name(""), None);
    assert_eq!(split_exposed_name("_"), None);
    assert_eq!(split_exposed_name("a_b"), None);
    assert_eq!(split_exposed_name("__"), Some(("", "")));
    assert_eq!(split_exposed_name("a___b"), Some(("a", "_b")));
    assert_eq!(split_exposed_name("\u{e9}__\u{1F600}"), Some(("\u{e9}", "\u{1F600}")));
}

#[test]
fn parts_put_together_are_the_name() {
    for name in ["stripe__create_refund", "a___b", "__x", "x__"] {
        let (server, tool) = split_exposed_name(name).unwrap();
        assert_eq!(format!("{}__{}", server, tool), name);
    }
}

#[test]
fn meta_tools_are_told_by_their_prefix() {
    assert!(is_code_mode_meta_tool("toolport_run_script"));
    assert!(is_code_mode_meta_tool("help_me"));
    assert!(is_code_mode_meta_tool("help_"));
    assert!(!is_code_mode_meta_tool("help"));
    assert!(!is_code_mode_meta_tool("stripe__toolport_"));
    assert!(!is_code_mode_meta_tool(""));
}

#[test]
fn identifiers_are_ascii_and_begin_with_no_digit() {
    for good in ["a", "_", "$", "aB2", "$_9", "Zz"] {
        assert!(is_js_ident_start(good), "{good}");
    }
    for bad in ["", "2a", "a-b", "a b", "\u{e9}", "a\u{e9}", "a."] {
        assert!(!is_js_ident_start(bad), "{bad}");
    }
}
