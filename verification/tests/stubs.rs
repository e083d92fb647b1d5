use codemode::build_servers_prelude;

const HEAD: &str = "(function () {\n  var servers = Object.create(null);\n  function stub(fullName) {\n    var f = function (args) {\n      return toolport.call(fullName, args === undefined || args === null ? {} : args);\n    };\n    f.async = function (args) {\n      return toolport.callAsync(fullName, args === undefined || args === null ? {} : args);\n    };\n    f.toolName = fullName;\n    return f;\n  }\n  function ensure(server) {\n    if (!servers[server]) servers[server] = Object.create(null);\n    return servers[server];\n  }\n";

const CATALOG: &str = "  globalThis.servers = servers;\n  var __toolport_catalog = [";

const TAIL: &str = "];\n  toolport.listTools = function () { return __toolport_catalog.slice(); };\n  toolport.listServers = function () { return Object.keys(servers); };\n})();\n";

fn catalog(names: &[&str]) -> Vec<String> {
    names.iter().map(|name| name.to_string()).collect()
}

#[test]
fn empty_catalog_gives_no_servers() {
    let expected = format!("{}{}{}", HEAD, CATALOG, TAIL);
    assert_eq!(build_servers_prelude(&[]), expected);
    assert_eq!(
        build_servers_prelude(&catalog(&["nosep", "__tool", "server__", ""])),
        expected
    );
}

#[test]
fn servers_and_tools_are_written_in_order() {
    let code = build_servers_prelude(&catalog(&["b__x_y", "a__t", "b__a", "b__2_b"]));
    let body = "  {\n    var s = ensure('a');\n    s['t'] = stub('a__t');\n  }\n  {\n    var s = ensure('b');\n    s['2_b'] = stub('b__2_b');\n    if (s['2B'] === undefined) s['2B'] = s['2_b'];\n    s['a'] = stub('b__a');\n    s['x_y'] = stub('b__x_y');\n    if (s['xY'] === undefined) s['xY'] = s['x_y'];\n  }\n";
    let names = "'a__t', 'b__2_b', 'b__a', 'b__x_y'";
    assert_eq!(code, format!("{}{}{}{}{}", HEAD, body, CATALOG, names, TAIL));
}

#[test]
fn order_and_repeats_make_no_difference() {
    let one = build_servers_prelude(&catalog(&["s__a", "t__b", "s__c", "none"]));
    let two = build_servers_prelude(&catalog(&["s__c", "s__a", "t__b", "s__a", "s__c"]));
    assert_eq!(one, two);
}

#[test]
fn an_alias_that_is_a_tool_is_not_written() {
    let code = build_servers_prelude(&catalog(&["s__create_refund", "s__createRefund"]));
    assert!(code.contains("s['createRefund'] = stub('s__createRefund');\n"));
    assert!(!code.contains("=== undefined) s['createRefund']"));
}

#[test]
fn order_is_that_of_characters() {
    let code = build_servers_prelude(&catalog(&[
        "s__\u{1F600}",
        "s__\u{ff5e}",
        "s__ab",
        "s__a",
        "s__B",
    ]));
    let list = "['s__B', 's__a', 's__ab', 's__\u{ff5e}', 's__\u{1F600}']";
    assert!(code.contains(list), "{code}");
}

#[test]
fn any_camel_name_that_differs_is_an_alias() {
    let code = build_servers_prelude(&catalog(&["s__get-a_b"]));
    let expected = "    s['get-a_b'] = stub('s__get-a_b');\n    if (s['get-aB'] === undefined) s['get-aB'] = s['get-a_b'];\n";
    assert!(code.contains(expected), "{code}");
    let code = build_servers_prelude(&catalog(&["s___", "s__plain"]));
    assert!(code.contains("s['_'] = stub('s___');\n    s['plain']"), "{code}");
    assert!(!code.contains("if (s["));
}
