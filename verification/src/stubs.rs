//! The `servers` object of a script: the assignments that install the stubs of a catalog,
//! and the code of them.

use vstd::prelude::*;

use crate::catalog::all_match;
use crate::catalog::exposed_name;
use crate::catalog::groups_of;
use crate::catalog::is_listing;
use crate::catalog::lemma_listing;
use crate::catalog::list_catalog;
use crate::catalog::listing;
use crate::catalog::tools_of;
use crate::catalog::Group;
use crate::catalog::ServerTools;
use crate::catalog::ToolEntry;
use crate::names::camel;
use crate::names::js_string_literal;
use crate::names::literal;
use crate::names::name_maps;
use crate::names::snake_to_camel;
use crate::text::same_text;

verus! {

/// The code before the stubs of the first server.
pub const STUBS_HEAD: &'static str = "(function () {
  var servers = Object.create(null);
  function stub(fullName) {
    var f = function (args) {
      return toolport.call(fullName, args === undefined || args === null ? {} : args);
    };
    f.async = function (args) {
      return toolport.callAsync(fullName, args === undefined || args === null ? {} : args);
    };
    f.toolName = fullName;
    return f;
  }
  function ensure(server) {
    if (!servers[server]) servers[server] = Object.create(null);
    return servers[server];
  }
";

/// The code between the stubs of the last server and the catalog.
pub const STUBS_CATALOG: &'static str = "  globalThis.servers = servers;
  var __toolport_catalog = [";

/// The code after the catalog.
pub const STUBS_TAIL: &'static str = "];
  toolport.listTools = function () { return __toolport_catalog.slice(); };
  toolport.listServers = function () { return Object.keys(servers); };
})();
";

/// One assignment to the object of a server.
pub enum Statement {
    /// The property becomes a stub for the exposed tool name.
    Stub { property: Seq<char>, exposed: Seq<char> },
    /// The property, unless it is defined, becomes what the other property holds.
    Alias { property: Seq<char>, target: Seq<char> },
}

/// Whether a tool of a server also gets its camel-case name: that differs from the tool's
/// name, is not empty, and is no tool of the same server.
pub open spec fn has_alias(tools: Seq<Seq<char>>, tool: Seq<char>) -> bool {
    camel(tool) != tool && camel(tool).len() > 0 && !tools.contains(camel(tool))
}

/// The assignments for one tool.
pub open spec fn tool_statements(group: Group, tool: Seq<char>) -> Seq<Statement> {
    let stub = Statement::Stub { property: tool, exposed: exposed_name(group.server, tool) };
    if has_alias(group.tools, tool) {
        seq![stub, Statement::Alias { property: camel(tool), target: tool }]
    } else {
        seq![stub]
    }
}

/// The assignments for the first `n` tools of a server.
pub open spec fn statements_upto(group: Group, n: int) -> Seq<Statement>
    decreases n,
{
    if n <= 0 {
        seq![]
    } else {
        statements_upto(group, n - 1) + tool_statements(group, group.tools[n - 1])
    }
}

/// The assignments for a server, in the order in which they run.
pub open spec fn statements(group: Group) -> Seq<Statement> {
    statements_upto(group, group.tools.len() as int)
}

/// The code of one assignment.
pub open spec fn statement_text(statement: Statement) -> Seq<char> {
    match statement {
        Statement::Stub { property, exposed } => "    s["@ + literal(property) + "] = stub("@
            + literal(exposed) + ");\n"@,
        Statement::Alias { property, target } => "    if (s["@ + literal(property)
            + "] === undefined) s["@ + literal(property) + "] = s["@ + literal(target) + "];\n"@,
    }
}

/// The code of a sequence of assignments.
pub open spec fn statements_text(statements: Seq<Statement>) -> Seq<char>
    decreases statements.len(),
{
    if statements.len() == 0 {
        seq![]
    } else {
        statements_text(statements.drop_last()) + statement_text(statements.last())
    }
}

/// The code for one server.
pub open spec fn group_text(group: Group) -> Seq<char> {
    "  {\n    var s = ensure("@ + literal(group.server) + ");\n"@ + statements_text(
        statements(group),
    ) + "  }\n"@
}

/// The code for a sequence of servers.
pub open spec fn groups_text(groups: Seq<Group>) -> Seq<char>
    decreases groups.len(),
{
    if groups.len() == 0 {
        seq![]
    } else {
        groups_text(groups.drop_last()) + group_text(groups.last())
    }
}

/// The exposed names of the tools of a server.
pub open spec fn group_names(group: Group) -> Seq<Seq<char>> {
    group.tools.map_values(|tool: Seq<char>| exposed_name(group.server, tool))
}

/// The exposed names of all listed tools, server by server.
pub open spec fn all_names(groups: Seq<Group>) -> Seq<Seq<char>>
    decreases groups.len(),
{
    if groups.len() == 0 {
        seq![]
    } else {
        all_names(groups.drop_last()) + group_names(groups.last())
    }
}

/// The literals of names, separated by commas.
pub open spec fn names_text(names: Seq<Seq<char>>) -> Seq<char>
    decreases names.len(),
{
    if names.len() == 0 {
        seq![]
    } else if names.len() == 1 {
        literal(names[0])
    } else {
        names_text(names.drop_last()) + ", "@ + literal(names.last())
    }
}

/// Whether [`name_maps`] holds of every tool of a server.
pub open spec fn group_maps(group: Group) -> bool {
    forall|k: int| 0 <= k < group.tools.len() ==> name_maps(#[trigger] group.tools[k])
}

/// The code that installs the `servers` object for a sequence of groups.
pub open spec fn prelude_text(groups: Seq<Group>) -> Seq<char> {
    STUBS_HEAD@ + groups_text(groups) + STUBS_CATALOG@ + names_text(all_names(groups))
        + STUBS_TAIL@
}

fn has_tool(entries: &Vec<ToolEntry>, name: &str) -> (found: bool)
    ensures
        found == tools_of(entries@).contains(name@),
{
    let mut i: usize = 0;
    while i < entries.len()
        invariant
            i <= entries@.len(),
            forall|j: int| 0 <= j < i ==> #[trigger] tools_of(entries@)[j] != name@,
        decreases entries@.len() - i,
    {
        if same_text(entries[i].tool.as_str(), name) {
            assert(tools_of(entries@)[i as int] == name@);
            return true;
        }
        i = i + 1;
    }
    false
}

fn push_stub(out: &mut String, property: &str, exposed: &str)
    ensures
        final(out)@ == old(out)@ + statement_text(
            Statement::Stub { property: property@, exposed: exposed@ },
        ),
{
    let property_literal: String = js_string_literal(property);
    let exposed_literal: String = js_string_literal(exposed);
    out.append("    s[");
    out.append(property_literal.as_str());
    out.append("] = stub(");
    out.append(exposed_literal.as_str());
    out.append(");\n");
    assert(out@ =~= old(out)@ + statement_text(
        Statement::Stub { property: property@, exposed: exposed@ },
    ));
}

fn push_alias(out: &mut String, property: &str, target: &str)
    ensures
        final(out)@ == old(out)@ + statement_text(
            Statement::Alias { property: property@, target: target@ },
        ),
{
    let property_literal: String = js_string_literal(property);
    let target_literal: String = js_string_literal(target);
    out.append("    if (s[");
    out.append(property_literal.as_str());
    out.append("] === undefined) s[");
    out.append(property_literal.as_str());
    out.append("] = s[");
    out.append(target_literal.as_str());
    out.append("];\n");
    assert(out@ =~= old(out)@ + statement_text(
        Statement::Alias { property: property@, target: target@ },
    ));
}

proof fn lemma_statements_text_tool(done: Seq<Statement>, group: Group, tool: Seq<char>)
    ensures
        statements_text(done + tool_statements(group, tool)) == statements_text(done)
            + statement_text(tool_statements(group, tool)[0]) + if has_alias(group.tools, tool) {
            statement_text(Statement::Alias { property: camel(tool), target: tool })
        } else {
            seq![]
        },
{
    let added = tool_statements(group, tool);
    let one = done.push(added[0]);
    assert(one.drop_last() =~= done);
    assert(statements_text(one) == statements_text(done) + statement_text(added[0]));
    if has_alias(group.tools, tool) {
        assert((done + added).drop_last() =~= one);
        assert((done + added).last() == added[1]);
        assert(statements_text(done + added) == statements_text(one) + statement_text(added[1]));
    } else {
        assert(done + added =~= one);
        assert(statements_text(one) =~= statements_text(one) + Seq::<char>::empty());
    }
}

/// Writes the code for one tool of a server.
fn push_tool(out: &mut String, entry: &ServerTools, k: usize)
    requires
        k < entry.tools@.len(),
        entry.names_match(),
    ensures
        forall|done: Seq<Statement>| #[trigger]
            statements_text(done + tool_statements(entry.group(), entry.tools@[k as int].tool@))
                == statements_text(done) + final(out)@.skip(old(out)@.len() as int),
        final(out)@.len() >= old(out)@.len(),
        final(out)@.take(old(out)@.len() as int) == old(out)@,
        name_maps(entry.tools@[k as int].tool@),
{
    let ghost before = out@;
    let ghost group = entry.group();
    let tool: &str = entry.tools[k].tool.as_str();
    push_stub(out, tool, entry.tools[k].exposed.as_str());
    let ghost stub = out@.skip(before.len() as int);
    assert(out@ =~= before + stub);
    let other: String = snake_to_camel(tool);
    if !same_text(other.as_str(), tool) && !other.as_str().is_empty() && !has_tool(
        &entry.tools,
        other.as_str(),
    ) {
        push_alias(out, other.as_str(), tool);
    }
    proof {
        let added = out@.skip(before.len() as int);
        assert(out@ =~= before + added);
        assert forall|done: Seq<Statement>| #[trigger]
            statements_text(done + tool_statements(group, tool@)) == statements_text(done)
                + added by {
            lemma_statements_text_tool(done, group, tool@);
            if has_alias(group.tools, tool@) {
                assert(added =~= statement_text(tool_statements(group, tool@)[0])
                    + statement_text(Statement::Alias { property: camel(tool@), target: tool@ }));
            } else {
                assert(added =~= statement_text(tool_statements(group, tool@)[0]));
            }
            assert(statements_text(done + tool_statements(group, tool@)) =~= statements_text(done)
                + added);
        }
    }
}

/// Writes the code for one server.
fn push_group(out: &mut String, entry: &ServerTools)
    requires
        entry.names_match(),
    ensures
        final(out)@ == old(out)@ + group_text(entry.group()),
        group_maps(entry.group()),
{
    let ghost group = entry.group();
    let server_literal: String = js_string_literal(entry.server.as_str());
    out.append("  {\n    var s = ensure(");
    out.append(server_literal.as_str());
    out.append(");\n");
    let ghost head = out@;
    let mut k: usize = 0;
    assert(out@ =~= head + statements_text(statements_upto(group, 0)));
    while k < entry.tools.len()
        invariant
            entry.names_match(),
            group == entry.group(),
            k <= entry.tools@.len(),
            out@ == head + statements_text(statements_upto(group, k as int)),
            forall|j: int| 0 <= j < k ==> name_maps(#[trigger] group.tools[j]),
        decreases entry.tools@.len() - k,
    {
        let ghost before = out@;
        push_tool(out, entry, k);
        proof {
            let done = statements_upto(group, k as int);
            assert(group.tools[k as int] == entry.tools@[k as int].tool@);
            assert(out@ =~= before + out@.skip(before.len() as int));
            assert(statements_upto(group, k + 1) == done + tool_statements(
                group,
                group.tools[k as int],
            ));
            assert(out@ =~= head + statements_text(statements_upto(group, k + 1)));
        }
        k = k + 1;
    }
    out.append("  }\n");
    assert(out@ =~= old(out)@ + group_text(group));
}

spec fn name_views(names: Seq<String>) -> Seq<Seq<char>> {
    names.map_values(|name: String| name@)
}

/// Appends the exposed names of the tools of a server.
fn push_names(names: &mut Vec<String>, entry: &ServerTools)
    requires
        entry.names_match(),
    ensures
        name_views(final(names)@) == name_views(old(names)@) + group_names(entry.group()),
{
    let ghost before = name_views(names@);
    let mut k: usize = 0;
    assert(name_views(names@) =~= before + group_names(entry.group()).take(0));
    while k < entry.tools.len()
        invariant
            entry.names_match(),
            k <= entry.tools@.len(),
            name_views(names@) == before + group_names(entry.group()).take(k as int),
        decreases entry.tools@.len() - k,
    {
        let ghost now = names@;
        names.push(entry.tools[k].exposed.clone());
        k = k + 1;
        proof {
            let e = entry.tools@[k - 1];
            assert(names@ == now.push(e.exposed));
            assert(name_views(names@) =~= name_views(now).push(e.exposed@));
            assert(name_views(names@) =~= before + group_names(entry.group()).take(k as int));
        }
    }
    assert(group_names(entry.group()).take(k as int) =~= group_names(entry.group()));
}

/// Writes the literals of names, separated by commas.
fn push_name_list(out: &mut String, names: &Vec<String>)
    ensures
        final(out)@ == old(out)@ + names_text(name_views(names@)),
{
    let ghost views = name_views(names@);
    let ghost before = out@;
    let mut i: usize = 0;
    assert(out@ =~= before + names_text(views.take(0)));
    while i < names.len()
        invariant
            views == name_views(names@),
            i <= names@.len(),
            out@ == before + names_text(views.take(i as int)),
        decreases names@.len() - i,
    {
        if i > 0 {
            out.append(", ");
        }
        let name_literal: String = js_string_literal(names[i].as_str());
        out.append(name_literal.as_str());
        i = i + 1;
        assert(views.take(i as int).drop_last() =~= views.take(i - 1));
        assert(out@ =~= before + names_text(views.take(i as int)));
    }
    assert(views.take(i as int) =~= views);
}

/// Writes the code that gives a script its `servers` object and its catalog functions, for
/// the tools with the exposed names in `catalog`. Names without a separator, or with an
/// empty server or tool, are left out. A tool whose camel-case name differs from its name and is
/// no tool of the same server gets that name too. The stubs call `toolport.call` and
/// `toolport.callAsync`, so the code is to be evaluated after those exist.
pub fn build_servers_prelude(catalog: &[String]) -> (out: String)
    ensures
        is_listing(listing(catalog@), catalog@),
        out@ == prelude_text(listing(catalog@)),
        forall|i: int|
            0 <= i < listing(catalog@).len() ==> group_maps(#[trigger] listing(catalog@)[i]),
{
    let servers: Vec<ServerTools> = list_catalog(catalog);
    let ghost groups = groups_of(servers@);
    proof {
        lemma_listing(catalog@);
    }
    let mut out: String = String::new();
    let mut names: Vec<String> = Vec::new();
    out.append(STUBS_HEAD);
    assert(out@ =~= STUBS_HEAD@ + groups_text(groups.take(0)));
    assert(name_views(names@) =~= all_names(groups.take(0)));
    let mut i: usize = 0;
    while i < servers.len()
        invariant
            groups == groups_of(servers@),
            all_match(servers@),
            i <= servers@.len(),
            out@ == STUBS_HEAD@ + groups_text(groups.take(i as int)),
            name_views(names@) == all_names(groups.take(i as int)),
            forall|j: int| 0 <= j < i ==> group_maps(#[trigger] groups[j]),
        decreases servers@.len() - i,
    {
        push_group(&mut out, &servers[i]);
        push_names(&mut names, &servers[i]);
        i = i + 1;
        assert(groups.take(i as int).drop_last() =~= groups.take(i - 1));
        assert(groups.take(i as int).last() == servers@[i - 1].group());
        assert(out@ =~= STUBS_HEAD@ + groups_text(groups.take(i as int)));
    }
    assert(groups.take(i as int) =~= groups);
    out.append(STUBS_CATALOG);
    push_name_list(&mut out, &names);
    out.append(STUBS_TAIL);
    assert(out@ =~= prelude_text(groups));
    out
}

} // verus!
