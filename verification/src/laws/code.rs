//! Laws of the code that installs the `servers` object: what a script engine reads in it.

use vstd::prelude::*;

use crate::catalog::ascending;
use crate::catalog::exposed_name;
use crate::catalog::lemma_listing;
use crate::catalog::lemma_parts_rejoin;
use crate::catalog::listing;
use crate::catalog::lists;
use crate::catalog::offers;
use crate::catalog::servers_of;
use crate::catalog::Group;
use crate::laws::names::ends_literal;
use crate::laws::names::hex_char;
use crate::laws::names::hex_digit;
use crate::laws::names::law_exposed_names;
use crate::laws::names::lemma_escaped_first;
use crate::laws::names::letter_char;
use crate::laws::stubs::first_with_alias;
use crate::laws::stubs::law_aliases_call_their_tools;
use crate::laws::stubs::law_no_other_stubs;
use crate::laws::stubs::law_tools_are_listed_once;
use crate::laws::stubs::law_tools_keep_their_names;
use crate::laws::stubs::object_after;
use crate::names::camel;
use crate::names::escape;
use crate::names::escaped;
use crate::names::exposed_parts;
use crate::names::literal;
use crate::stubs::all_names;
use crate::stubs::group_names;
use crate::stubs::group_text;
use crate::stubs::groups_text;
use crate::stubs::has_alias;
use crate::stubs::names_text;
use crate::stubs::prelude_text;
use crate::stubs::statement_text;
use crate::stubs::statements;
use crate::stubs::statements_text;
use crate::stubs::statements_upto;
use crate::stubs::Statement;
use crate::stubs::STUBS_CATALOG;
use crate::stubs::STUBS_HEAD;
use crate::stubs::STUBS_TAIL;
use crate::text::lemma_precedes_asymmetric;
use crate::text::lemma_precedes_transitive;
use crate::text::precedes;

verus! {

/// What stands in a text after a beginning, if it has that beginning.
pub open spec fn behind(text: Seq<char>, start: Seq<char>) -> Option<Seq<char>> {
    if start.len() <= text.len() && text.take(start.len() as int) == start {
        Some(text.skip(start.len() as int))
    } else {
        None
    }
}

/// A character in front of what was read, if both are there.
pub open spec fn read_on(
    c: Option<char>,
    read: Option<(Seq<char>, Seq<char>)>,
) -> Option<(Seq<char>, Seq<char>)> {
    match (c, read) {
        (Some(c), Some((text, rest))) => Some((seq![c] + text, rest)),
        _ => None,
    }
}

/// Reads a literal behind its first quote: its text, and what stands after its last quote.
pub open spec fn read_chars(t: Seq<char>) -> Option<(Seq<char>, Seq<char>)>
    decreases t.len(),
{
    if t.len() == 0 {
        None
    } else if t[0] == '\'' {
        Some((seq![], t.skip(1)))
    } else if t[0] == '\\' {
        if t.len() < 2 {
            None
        } else if t[1] == 'u' {
            if t.len() < 6 {
                None
            } else {
                read_on(hex_char(t[2], t[3], t[4], t[5]), read_chars(t.skip(6)))
            }
        } else {
            read_on(letter_char(t[1]), read_chars(t.skip(2)))
        }
    } else if ends_literal(t[0]) {
        None
    } else {
        read_on(Some(t[0]), read_chars(t.skip(1)))
    }
}

/// Reads a single-quoted literal: its text, and what stands after it.
pub open spec fn read_quoted(t: Seq<char>) -> Option<(Seq<char>, Seq<char>)> {
    if t.len() > 0 && t[0] == '\'' {
        read_chars(t.skip(1))
    } else {
        None
    }
}

/// Reads a literal and what is to stand behind it.
#[verifier::opaque]
pub open spec fn read_quoted_then(t: Seq<char>, end: Seq<char>) -> Option<(Seq<char>, Seq<char>)> {
    match read_quoted(t) {
        Some((text, rest)) => match behind(rest, end) {
            Some(rest) => Some((text, rest)),
            None => None,
        },
        None => None,
    }
}

/// Reads the assignment of a stub.
pub open spec fn read_stub(t: Seq<char>) -> Option<(Statement, Seq<char>)> {
    match behind(t, "    s["@) {
        Some(t) => match read_quoted_then(t, "] = stub("@) {
            Some((property, t)) => match read_quoted_then(t, ");\n"@) {
                Some((exposed, t)) => Some((Statement::Stub { property, exposed }, t)),
                None => None,
            },
            None => None,
        },
        None => None,
    }
}

/// Reads the assignment of an alias. The property that is tested is the one that is assigned.
pub open spec fn read_alias(t: Seq<char>) -> Option<(Statement, Seq<char>)> {
    match behind(t, "    if (s["@) {
        Some(t) => match read_quoted_then(t, "] === undefined) s["@) {
            Some((tested, t)) => match read_quoted_then(t, "] = s["@) {
                Some((property, t)) => match read_quoted_then(t, "];\n"@) {
                    Some((target, t)) => if tested == property {
                        Some((Statement::Alias { property, target }, t))
                    } else {
                        None
                    },
                    None => None,
                },
                None => None,
            },
            None => None,
        },
        None => None,
    }
}

/// Reads an assignment.
#[verifier::opaque]
pub open spec fn read_statement(t: Seq<char>) -> Option<(Statement, Seq<char>)> {
    match read_stub(t) {
        Some(read) => Some(read),
        None => read_alias(t),
    }
}

/// Reads the assignments of a block, up to its end.
#[verifier::opaque]
pub open spec fn read_statements(t: Seq<char>) -> Option<(Seq<Statement>, Seq<char>)>
    decreases t.len(),
{
    match behind(t, "  }\n"@) {
        Some(rest) => Some((seq![], rest)),
        None => match read_statement(t) {
            Some((statement, rest)) => if rest.len() < t.len() {
                match read_statements(rest) {
                    Some((others, rest)) => Some((seq![statement] + others, rest)),
                    None => None,
                }
            } else {
                None
            },
            None => None,
        },
    }
}

/// A block of the code: a server, and the assignments to its object.
#[verifier::ext_equal]
pub struct Block {
    pub server: Seq<char>,
    pub statements: Seq<Statement>,
}

/// Reads the blocks of the code, as many as there are.
pub open spec fn read_blocks(t: Seq<char>) -> Option<(Seq<Block>, Seq<char>)>
    decreases t.len(),
{
    match behind(t, "  {\n    var s = ensure("@) {
        None => Some((seq![], t)),
        Some(inner) => match read_quoted_then(inner, ");\n"@) {
            Some((server, inner)) => match read_statements(inner) {
                Some((statements, rest)) => if rest.len() < t.len() {
                    match read_blocks(rest) {
                        Some((others, rest)) => Some(
                            (seq![Block { server, statements }] + others, rest),
                        ),
                        None => None,
                    }
                } else {
                    None
                },
                None => None,
            },
            None => None,
        },
    }
}

/// Reads literals with commas between them, as many as there are.
pub open spec fn read_names(t: Seq<char>) -> Option<(Seq<Seq<char>>, Seq<char>)>
    decreases t.len(),
{
    match read_quoted(t) {
        None => Some((seq![], t)),
        Some((name, rest)) => match behind(rest, ", "@) {
            None => Some((seq![name], rest)),
            Some(rest) => if rest.len() < t.len() {
                match read_names(rest) {
                    Some((others, rest)) => Some((seq![name] + others, rest)),
                    None => None,
                }
            } else {
                None
            },
        },
    }
}

/// What the code installs: the blocks of the servers, and the names that are listed.
#[verifier::ext_equal]
pub struct Installed {
    pub blocks: Seq<Block>,
    pub names: Seq<Seq<char>>,
}

/// Reads the whole code.
pub open spec fn read_code(code: Seq<char>) -> Option<Installed> {
    match behind(code, STUBS_HEAD@) {
        Some(t) => match read_blocks(t) {
            Some((blocks, t)) => match behind(t, STUBS_CATALOG@) {
                Some(t) => match read_names(t) {
                    Some((names, t)) => if t == STUBS_TAIL@ {
                        Some(Installed { blocks, names })
                    } else {
                        None
                    },
                    None => None,
                },
                None => None,
            },
            None => None,
        },
        None => None,
    }
}

proof fn lemma_behind(start: Seq<char>, rest: Seq<char>)
    ensures
        behind(start + rest, start) == Some(rest),
{
    assert((start + rest).take(start.len() as int) =~= start);
    assert((start + rest).skip(start.len() as int) =~= rest);
}

proof fn lemma_not_behind(text: Seq<char>, start: Seq<char>, i: int)
    requires
        0 <= i < start.len(),
        i < text.len(),
        text[i] != start[i],
    ensures
        behind(text, start) is None,
{
    if start.len() <= text.len() {
        assert(text.take(start.len() as int)[i] == text[i]);
    }
}

proof fn lemma_read_escape(c: char, rest: Seq<char>)
    ensures
        read_chars(escape(c) + rest) == read_on(Some(c), read_chars(rest)),
{
    let t = escape(c) + rest;
    if c == '\u{2028}' || c == '\u{2029}' {
        assert(t.skip(6) =~= rest);
        assert(hex_digit('2') == Some(2int));
        assert(hex_digit('0') == Some(0int));
        assert(hex_char('2', '0', '2', '8') == Some('\u{2028}'));
        assert(hex_char('2', '0', '2', '9') == Some('\u{2029}'));
    } else if c == '\\' || c == '\'' || c == '\n' || c == '\r' {
        assert(t.skip(2) =~= rest);
    } else {
        assert(t.skip(1) =~= rest);
    }
}

proof fn lemma_read_chars(s: Seq<char>, rest: Seq<char>)
    ensures
        read_chars(escaped(s) + (seq!['\''] + rest)) == Some((s, rest)),
    decreases s.len(),
{
    let end = seq!['\''] + rest;
    if s.len() == 0 {
        assert(escaped(s) + end =~= end);
        assert(end.skip(1) =~= rest);
        assert(s =~= seq![]);
    } else {
        lemma_escaped_first(s);
        lemma_read_chars(s.drop_first(), rest);
        lemma_read_escape(s[0], escaped(s.drop_first()) + end);
        assert(escaped(s) + end =~= escape(s[0]) + (escaped(s.drop_first()) + end));
        assert(seq![s[0]] + s.drop_first() =~= s);
    }
}

proof fn lemma_read_quoted(s: Seq<char>, rest: Seq<char>)
    ensures
        read_quoted(literal(s) + rest) == Some((s, rest)),
{
    let t = literal(s) + rest;
    assert(t.skip(1) =~= escaped(s) + (seq!['\''] + rest));
    lemma_read_chars(s, rest);
}

proof fn lemma_read_quoted_then(s: Seq<char>, end: Seq<char>, rest: Seq<char>)
    ensures
        read_quoted_then(literal(s) + (end + rest), end) == Some((s, rest)),
{
    reveal(read_quoted_then);
    lemma_read_quoted(s, end + rest);
    lemma_behind(end, rest);
}

proof fn lemma_read_statement(statement: Statement, rest: Seq<char>)
    ensures
        read_statement(statement_text(statement) + rest) == Some((statement, rest)),
        behind(statement_text(statement) + rest, "  }\n"@) is None,
        statement_text(statement).len() > 0,
{
    reveal(read_statement);
    reveal_strlit("    s[");
    reveal_strlit("    if (s[");
    reveal_strlit("  }\n");
    let t = statement_text(statement) + rest;
    match statement {
        Statement::Stub { property, exposed } => {
            let last = ");\n"@ + rest;
            let second = literal(exposed) + last;
            let middle = "] = stub("@ + second;
            let first = literal(property) + middle;
            assert(t =~= "    s["@ + first);
            lemma_behind("    s["@, first);
            lemma_read_quoted_then(property, "] = stub("@, second);
            lemma_read_quoted_then(exposed, ");\n"@, rest);
        },
        Statement::Alias { property, target } => {
            let last = "];\n"@ + rest;
            let third = literal(target) + last;
            let next = "] = s["@ + third;
            let second = literal(property) + next;
            let middle = "] === undefined) s["@ + second;
            let first = literal(property) + middle;
            assert(t =~= "    if (s["@ + first);
            lemma_behind("    if (s["@, first);
            lemma_read_quoted_then(property, "] === undefined) s["@, second);
            lemma_read_quoted_then(property, "] = s["@, third);
            lemma_read_quoted_then(target, "];\n"@, rest);
            assert(t[4] == 'i');
            lemma_not_behind(t, "    s["@, 4);
        },
    }
    assert(t[2] == ' ');
    lemma_not_behind(t, "  }\n"@, 2);
}

proof fn lemma_statements_text_first(statements: Seq<Statement>)
    requires
        statements.len() > 0,
    ensures
        statements_text(statements) == statement_text(statements[0]) + statements_text(
            statements.drop_first(),
        ),
    decreases statements.len(),
{
    let others = statements.drop_first();
    if statements.len() == 1 {
        assert(statements_text(statements.drop_last()) =~= seq![]);
        assert(statements_text(others) =~= seq![]);
        assert(statements_text(statements) =~= statement_text(statements[0]) + statements_text(
            others,
        ));
    } else {
        lemma_statements_text_first(statements.drop_last());
        assert(statements.drop_last().drop_first() =~= others.drop_last());
        assert(statements_text(statements) =~= statement_text(statements[0]) + statements_text(
            others,
        ));
    }
}

proof fn lemma_read_statements(statements: Seq<Statement>, rest: Seq<char>)
    ensures
        read_statements(statements_text(statements) + ("  }\n"@ + rest)) == Some(
            (statements, rest),
        ),
    decreases statements.len(),
{
    reveal(read_statements);
    let end = "  }\n"@ + rest;
    let t = statements_text(statements) + end;
    if statements.len() == 0 {
        assert(t =~= end);
        lemma_behind("  }\n"@, rest);
        assert(statements =~= seq![]);
    } else {
        let others = statements.drop_first();
        let next = statements_text(others) + end;
        lemma_statements_text_first(statements);
        assert(t =~= statement_text(statements[0]) + next);
        lemma_read_statement(statements[0], next);
        lemma_read_statements(others, rest);
        assert(seq![statements[0]] + others =~= statements);
    }
}

proof fn lemma_groups_text_first(groups: Seq<Group>)
    requires
        groups.len() > 0,
    ensures
        groups_text(groups) == group_text(groups[0]) + groups_text(groups.drop_first()),
    decreases groups.len(),
{
    let others = groups.drop_first();
    if groups.len() == 1 {
        assert(groups_text(groups.drop_last()) =~= seq![]);
        assert(groups_text(others) =~= seq![]);
        assert(groups_text(groups) =~= group_text(groups[0]) + groups_text(others));
    } else {
        lemma_groups_text_first(groups.drop_last());
        assert(groups.drop_last().drop_first() =~= others.drop_last());
        assert(groups_text(groups) =~= group_text(groups[0]) + groups_text(others));
    }
}

/// The block of a server.
pub open spec fn block_of(group: Group) -> Block {
    Block { server: group.server, statements: statements(group) }
}

/// The blocks of servers, in order.
pub open spec fn blocks_of(groups: Seq<Group>) -> Seq<Block> {
    groups.map_values(|group: Group| block_of(group))
}

/// What stands behind the opening of the block of a server.
spec fn block_inner(group: Group, next: Seq<char>) -> Seq<char> {
    literal(group.server) + (");\n"@ + (statements_text(statements(group)) + ("  }\n"@ + next)))
}

proof fn lemma_block_text(group: Group, next: Seq<char>)
    ensures
        group_text(group) + next == "  {\n    var s = ensure("@ + block_inner(group, next),
        group_text(group).len() > 0,
{
    reveal_strlit("  }\n");
    assert(group_text(group) + next =~= "  {\n    var s = ensure("@ + block_inner(group, next));
}

proof fn lemma_read_blocks(groups: Seq<Group>, rest: Seq<char>)
    requires
        behind(rest, "  {\n    var s = ensure("@) is None,
    ensures
        read_blocks(groups_text(groups) + rest) == Some((blocks_of(groups), rest)),
    decreases groups.len(),
{
    let t = groups_text(groups) + rest;
    if groups.len() == 0 {
        assert(t =~= rest);
        assert(blocks_of(groups) =~= seq![]);
    } else {
        let group = groups[0];
        let others = groups.drop_first();
        let next = groups_text(others) + rest;
        let body = statements_text(statements(group)) + ("  }\n"@ + next);
        lemma_groups_text_first(groups);
        lemma_block_text(group, next);
        assert(t =~= group_text(group) + next);
        lemma_behind("  {\n    var s = ensure("@, block_inner(group, next));
        lemma_read_quoted_then(group.server, ");\n"@, body);
        lemma_read_statements(statements(group), next);
        lemma_read_blocks(others, rest);
        assert(next.len() < t.len());
        assert(seq![block_of(group)] + blocks_of(others) =~= blocks_of(groups));
    }
}

proof fn lemma_names_text_first(names: Seq<Seq<char>>)
    requires
        names.len() > 1,
    ensures
        names_text(names) == literal(names[0]) + ", "@ + names_text(names.drop_first()),
    decreases names.len(),
{
    let others = names.drop_first();
    if names.len() == 2 {
        assert(names_text(names.drop_last()) == literal(names[0]));
        assert(names_text(others) == literal(names[1]));
        assert(names_text(names) =~= literal(names[0]) + ", "@ + names_text(others));
    } else {
        lemma_names_text_first(names.drop_last());
        assert(names.drop_last().drop_first() =~= others.drop_last());
        assert(names_text(names) =~= literal(names[0]) + ", "@ + names_text(others));
    }
}

proof fn lemma_read_names(names: Seq<Seq<char>>, rest: Seq<char>)
    requires
        rest.len() > 0,
        rest[0] == ']',
    ensures
        read_names(names_text(names) + rest) == Some((names, rest)),
    decreases names.len(),
{
    reveal_strlit(", ");
    let t = names_text(names) + rest;
    if names.len() == 0 {
        assert(t =~= rest);
        assert(names =~= seq![]);
    } else if names.len() == 1 {
        lemma_read_quoted(names[0], rest);
        lemma_not_behind(rest, ", "@, 0);
        assert(seq![names[0]] =~= names);
    } else {
        let others = names.drop_first();
        let next = names_text(others) + rest;
        lemma_names_text_first(names);
        assert(t =~= literal(names[0]) + (", "@ + next));
        lemma_read_quoted(names[0], ", "@ + next);
        lemma_behind(", "@, next);
        lemma_read_names(others, rest);
        assert(seq![names[0]] + others =~= names);
    }
}

/// The code is read as it is meant, however many servers and tools there are and whatever they
/// are called: one block for each server, with its assignments in order, and then the list of
/// the names.
pub proof fn law_code_reads_back(groups: Seq<Group>)
    ensures
        read_code(prelude_text(groups)) == Some(
            (Installed { blocks: blocks_of(groups), names: all_names(groups) }),
        ),
{
    reveal_strlit("  {\n    var s = ensure(");
    reveal_strlit("  globalThis.servers = servers;\n  var __toolport_catalog = [");
    reveal_strlit("];\n  toolport.listTools = function () { return __toolport_catalog.slice(); };\n  toolport.listServers = function () { return Object.keys(servers); };\n})();\n");
    let names = names_text(all_names(groups)) + STUBS_TAIL@;
    let after_blocks = STUBS_CATALOG@ + names;
    let after_head = groups_text(groups) + after_blocks;
    assert(prelude_text(groups) =~= STUBS_HEAD@ + after_head);
    lemma_behind(STUBS_HEAD@, after_head);
    assert(after_blocks[2] == 'g');
    lemma_not_behind(after_blocks, "  {\n    var s = ensure("@, 2);
    lemma_read_blocks(groups, after_blocks);
    lemma_behind(STUBS_CATALOG@, names);
    lemma_read_names(all_names(groups), STUBS_TAIL@);
}

/// What a script engine reads in the code for a catalog.
pub open spec fn installed(catalog: Seq<String>) -> Installed {
    read_code(prelude_text(listing(catalog)))->0
}

/// Every tool of the catalog is installed: the code has a block for its server, in which the
/// property with the tool's name calls the name of the catalog; and the name is listed.
pub proof fn law_tools_of_the_catalog_are_installed(
    catalog: Seq<String>,
    i: int,
    server: Seq<char>,
    tool: Seq<char>,
)
    requires
        0 <= i < catalog.len(),
        exposed_parts(catalog[i]@) == Some((server, tool)),
        server.len() > 0,
        tool.len() > 0,
    ensures
        read_code(prelude_text(listing(catalog))) is Some,
        installed(catalog).names.contains(catalog[i]@),
        exists|b: int|
            0 <= b < installed(catalog).blocks.len() && (
            #[trigger] installed(catalog).blocks[b]).server == server && object_after(
                installed(catalog).blocks[b].statements,
            ).contains_key(tool) && object_after(installed(catalog).blocks[b].statements)[tool]
                == catalog[i]@,
{
    let groups = listing(catalog);
    law_code_reads_back(groups);
    lemma_listing(catalog);
    assert(offers(catalog, server, tool));
    assert(lists(groups, server, tool));
    let b = choose|b: int|
        0 <= b < groups.len() && (#[trigger] groups[b]).server == server
            && groups[b].tools.contains(tool);
    law_tools_keep_their_names(groups[b], tool);
    lemma_parts_rejoin(catalog[i]@, server, tool);
    assert(installed(catalog).blocks[b] == block_of(groups[b]));
    law_tools_are_listed_once(catalog);
    assert(all_names(groups).contains(catalog[i]@));
}

/// Nothing else is installed: whatever property of a server a script calls, it calls a name of
/// the catalog, a tool of that server.
pub proof fn law_only_tools_of_the_catalog_are_installed(
    catalog: Seq<String>,
    b: int,
    property: Seq<char>,
)
    requires
        0 <= b < installed(catalog).blocks.len(),
        object_after(installed(catalog).blocks[b].statements).contains_key(property),
    ensures
        exists|i: int, tool: Seq<char>|
            0 <= i < catalog.len() && #[trigger] exposed_parts(catalog[i]@) == Some(
                (installed(catalog).blocks[b].server, tool),
            ) && object_after(installed(catalog).blocks[b].statements)[property] == catalog[i]@
                && (#[trigger] camel(tool) == property || tool == property),
{
    let groups = listing(catalog);
    law_code_reads_back(groups);
    lemma_listing(catalog);
    let group = groups[b];
    assert(installed(catalog).blocks[b] == block_of(group));
    law_no_other_stubs(group, property);
    let tool = if group.tools.contains(property) {
        law_tools_keep_their_names(group, property);
        property
    } else {
        let k = choose|k: int|
            0 <= k < group.tools.len() && has_alias(group.tools, #[trigger] group.tools[k])
                && camel(group.tools[k]) == property;
        law_aliases_call_their_tools(group, group.tools[k]);
        let j = choose|j: int| #[trigger]
            first_with_alias(group, j, property) && object_after(statements(group))[property]
                == exposed_name(group.server, group.tools[j]);
        assert(group.tools.contains(group.tools[j]));
        group.tools[j]
    };
    assert(lists(groups, group.server, tool));
    assert(offers(catalog, group.server, tool));
    let i = choose|i: int|
        0 <= i < catalog.len() && exposed_parts(#[trigger] catalog[i]@) == Some(
            (group.server, tool),
        );
    lemma_parts_rejoin(catalog[i]@, group.server, tool);
    assert(exposed_parts(catalog[i]@) == Some((installed(catalog).blocks[b].server, tool)));
    assert(camel(tool) == property || tool == property);
}

/// Every tool whose camel-case name differs from its name, is not empty and is no tool of the
/// same server in the catalog can be called under that name too: the property is there, and calls
/// a tool of that server with that camel-case name.
pub proof fn law_camel_names_are_installed(
    catalog: Seq<String>,
    i: int,
    server: Seq<char>,
    tool: Seq<char>,
)
    requires
        0 <= i < catalog.len(),
        exposed_parts(catalog[i]@) == Some((server, tool)),
        server.len() > 0,
        tool.len() > 0,
        camel(tool) != tool,
        camel(tool).len() > 0,
        forall|j: int|
            0 <= j < catalog.len() ==> exposed_parts(#[trigger] catalog[j]@) != Some(
                (server, camel(tool)),
            ),
    ensures
        exists|b: int|
            0 <= b < installed(catalog).blocks.len() && (
            #[trigger] installed(catalog).blocks[b]).server == server && object_after(
                installed(catalog).blocks[b].statements,
            ).contains_key(camel(tool)),
{
    let groups = listing(catalog);
    law_code_reads_back(groups);
    lemma_listing(catalog);
    assert(offers(catalog, server, tool));
    assert(lists(groups, server, tool));
    let b = choose|b: int|
        0 <= b < groups.len() && (#[trigger] groups[b]).server == server
            && groups[b].tools.contains(tool);
    if groups[b].tools.contains(camel(tool)) {
        assert(lists(groups, server, camel(tool)));
        assert(offers(catalog, server, camel(tool)));
    }
    assert(has_alias(groups[b].tools, tool));
    law_aliases_call_their_tools(groups[b], tool);
    assert(installed(catalog).blocks[b] == block_of(groups[b]));
}

proof fn lemma_earlier_is_other(tools: Seq<Seq<char>>, j: int, at: int, y: Seq<char>)
    requires
        ascending(tools),
        0 <= j <= at < tools.len(),
        precedes(tools[at], y),
    ensures
        tools[j] != y,
{
    lemma_precedes_asymmetric(tools[at], y);
    if j < at {
        lemma_precedes_transitive(tools[j], tools[at], y);
        lemma_precedes_asymmetric(tools[j], y);
    }
}

proof fn lemma_names_of_tools_differ(server: Seq<char>, a: Seq<char>, b: Seq<char>)
    requires
        a != b,
    ensures
        exposed_name(server, a) != exposed_name(server, b),
{
    let n = server.len() as int + 2;
    assert(exposed_name(server, a).skip(n) =~= a);
    assert(exposed_name(server, b).skip(n) =~= b);
}

/// A camel-case name never takes the place of a tool, and where two tools of a server share it,
/// it calls the one whose name comes first.
pub proof fn law_the_first_tool_gets_the_camel_name(
    catalog: Seq<String>,
    b: int,
    x: Seq<char>,
    y: Seq<char>,
)
    requires
        0 <= b < listing(catalog).len(),
        listing(catalog)[b].tools.contains(x),
        listing(catalog)[b].tools.contains(y),
        precedes(x, y),
        camel(x) == camel(y),
        camel(x) != x,
        camel(x).len() > 0,
        !listing(catalog)[b].tools.contains(camel(x)),
    ensures
        object_after(installed(catalog).blocks[b].statements).contains_key(camel(x)),
        object_after(installed(catalog).blocks[b].statements)[camel(x)] != exposed_name(
            listing(catalog)[b].server,
            y,
        ),
{
    let groups = listing(catalog);
    let group = groups[b];
    law_code_reads_back(groups);
    lemma_listing(catalog);
    assert(installed(catalog).blocks[b] == block_of(group));
    assert(has_alias(group.tools, x));
    law_aliases_call_their_tools(group, x);
    let j = choose|j: int| #[trigger]
        first_with_alias(group, j, camel(x)) && object_after(statements(group))[camel(x)]
            == exposed_name(group.server, group.tools[j]);
    let at = choose|k: int| 0 <= k < group.tools.len() && group.tools[k] == x;
    assert(has_alias(group.tools, group.tools[at]) && camel(group.tools[at]) == camel(x));
    assert(j <= at);
    lemma_earlier_is_other(group.tools, j, at, y);
    lemma_names_of_tools_differ(group.server, group.tools[j], y);
}

/// The servers stand in the code in the order of their names, each with one block.
pub proof fn law_servers_are_in_order(catalog: Seq<String>, a: int, b: int)
    requires
        0 <= a < b < installed(catalog).blocks.len(),
    ensures
        precedes(installed(catalog).blocks[a].server, installed(catalog).blocks[b].server),
{
    let groups = listing(catalog);
    law_code_reads_back(groups);
    lemma_listing(catalog);
    assert(installed(catalog).blocks[a] == block_of(groups[a]));
    assert(installed(catalog).blocks[b] == block_of(groups[b]));
    assert(servers_of(groups)[a] == groups[a].server);
    assert(servers_of(groups)[b] == groups[b].server);
}

/// A server that is listed has tools, and they stand in the order of their names.
pub proof fn law_tools_are_in_order(catalog: Seq<String>, b: int)
    requires
        0 <= b < listing(catalog).len(),
    ensures
        listing(catalog)[b].tools.len() > 0,
        forall|j: int, k: int|
            0 <= j < k < listing(catalog)[b].tools.len() ==> precedes(
                #[trigger] listing(catalog)[b].tools[j],
                #[trigger] listing(catalog)[b].tools[k],
            ),
{
    lemma_listing(catalog);
    assert(ascending(listing(catalog)[b].tools));
}

/// The assignments of a server go by tool: for each tool its stub, and right behind it, where the
/// tool gets its camel-case name too, the assignment of that.
pub proof fn law_assignments_go_by_tool(group: Group, n: int)
    requires
        0 <= n < group.tools.len(),
    ensures
        ({
            let tool = group.tools[n];
            let before = statements_upto(group, n);
            let after = statements_upto(group, n + 1);
            let stub = Statement::Stub { property: tool, exposed: group.server + "__"@ + tool };
            if camel(tool) != tool && camel(tool).len() > 0 && !group.tools.contains(camel(tool)) {
                after == before.push(stub).push(
                    Statement::Alias { property: camel(tool), target: tool },
                )
            } else {
                after == before.push(stub)
            }
        }),
        statements_upto(group, 0).len() == 0,
        n + 1 == group.tools.len() ==> statements(group) == statements_upto(group, n + 1),
{
    let tool = group.tools[n];
    let before = statements_upto(group, n);
    let after = statements_upto(group, n + 1);
    let stub = Statement::Stub { property: tool, exposed: group.server + "__"@ + tool };
    law_exposed_names(group.server, tool);
    if has_alias(group.tools, tool) {
        let alias = Statement::Alias { property: camel(tool), target: tool };
        assert(after =~= before.push(stub).push(alias));
    } else {
        assert(after =~= before.push(stub));
    }
}

/// The list of names goes by server: that of two parts of the servers is that of the first and
/// then that of the second, and that of one server has the names of its tools in their order.
pub proof fn law_names_go_by_server(a: Seq<Group>, b: Seq<Group>, group: Group)
    ensures
        all_names(a + b) == all_names(a) + all_names(b),
        all_names(seq![group]).len() == group.tools.len(),
        forall|k: int|
            0 <= k < group.tools.len() ==> #[trigger] all_names(seq![group])[k] == group.server
                + "__"@ + group.tools[k],
    decreases b.len(),
{
    let one = seq![group];
    assert(one.drop_last() =~= seq![]);
    assert(all_names(one.drop_last()) =~= seq![]);
    assert(all_names(one) =~= group_names(group));
    assert forall|k: int| 0 <= k < group.tools.len() implies #[trigger] all_names(one)[k]
        == group.server + "__"@ + group.tools[k] by {
        law_exposed_names(group.server, group.tools[k]);
    }
    if b.len() == 0 {
        assert(a + b =~= a);
        assert(all_names(a + b) =~= all_names(a) + all_names(b));
    } else {
        law_names_go_by_server(a, b.drop_last(), group);
        assert((a + b).drop_last() =~= a + b.drop_last());
        assert(all_names(a + b) =~= all_names(a) + all_names(b));
    }
}

} // verus!
