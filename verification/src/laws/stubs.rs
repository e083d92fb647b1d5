//! Laws of the `servers` object.

use vstd::prelude::*;

use crate::catalog::ascending;
use crate::catalog::exposed_name;
use crate::catalog::in_order;
use crate::catalog::is_listing;
use crate::catalog::lemma_listing;
use crate::catalog::lemma_parts_rejoin;
use crate::catalog::listing;
use crate::catalog::lists;
use crate::catalog::offers;
use crate::catalog::servers_of;
use crate::catalog::Group;
use crate::names::camel;
use crate::names::exposed_parts;
use crate::stubs::all_names;
use crate::stubs::group_names;
use crate::stubs::groups_text;
use crate::stubs::has_alias;
use crate::stubs::names_text;
use crate::stubs::prelude_text;
use crate::stubs::statements;
use crate::stubs::statements_upto;
use crate::stubs::tool_statements;
use crate::stubs::Statement;
use crate::stubs::STUBS_CATALOG;
use crate::stubs::STUBS_HEAD;
use crate::stubs::STUBS_TAIL;
use crate::text::lemma_precedes_asymmetric;
use crate::text::precedes;

verus! {

/// What the object of a server holds after one more assignment: for each property the exposed
/// name of the tool that it calls.
pub open spec fn assigned(
    object: Map<Seq<char>, Seq<char>>,
    statement: Statement,
) -> Map<Seq<char>, Seq<char>> {
    match statement {
        Statement::Stub { property, exposed } => object.insert(property, exposed),
        Statement::Alias { property, target } => if object.contains_key(property)
            || !object.contains_key(target) {
            object
        } else {
            object.insert(property, object[target])
        },
    }
}

/// What the object of a server holds after assignments to an empty object.
pub open spec fn object_after(statements: Seq<Statement>) -> Map<Seq<char>, Seq<char>>
    decreases statements.len(),
{
    if statements.len() == 0 {
        Map::empty()
    } else {
        assigned(object_after(statements.drop_last()), statements.last())
    }
}

/// Whether the tool in place `j` is the first of its server to get an alias.
pub open spec fn first_with_alias(group: Group, j: int, alias: Seq<char>) -> bool {
    &&& 0 <= j < group.tools.len()
    &&& has_alias(group.tools, group.tools[j])
    &&& camel(group.tools[j]) == alias
    &&& forall|i: int|
        0 <= i < j ==> !(has_alias(group.tools, #[trigger] group.tools[i]) && camel(group.tools[i])
            == alias)
}

spec fn serves_upto(group: Group, n: int, object: Map<Seq<char>, Seq<char>>) -> bool {
    &&& forall|k: int|
        0 <= k < n ==> object.contains_key(#[trigger] group.tools[k]) && object[group.tools[k]]
            == exposed_name(group.server, group.tools[k])
    &&& forall|k: int|
        0 <= k < n && has_alias(group.tools, #[trigger] group.tools[k]) ==> object.contains_key(
            camel(group.tools[k]),
        )
    &&& forall|j: int, alias: Seq<char>|
        j < n && #[trigger] first_with_alias(group, j, alias) ==> object[alias] == exposed_name(
            group.server,
            group.tools[j],
        )
    &&& forall|p: Seq<char>| #[trigger]
        object.contains_key(p) ==> (exists|k: int| 0 <= k < n && #[trigger] group.tools[k] == p)
            || (exists|k: int|
            0 <= k < n && has_alias(group.tools, #[trigger] group.tools[k]) && camel(
                group.tools[k],
            ) == p)
}

proof fn lemma_serves(group: Group, n: int)
    requires
        0 <= n <= group.tools.len(),
    ensures
        serves_upto(group, n, object_after(statements_upto(group, n))),
    decreases n,
{
    if n > 0 {
        lemma_serves(group, n - 1);
        let done = statements_upto(group, n - 1);
        let before = object_after(done);
        let tool = group.tools[n - 1];
        let added = tool_statements(group, tool);
        let all = done + added;
        let one = done.push(added[0]);
        let middle = object_after(one);
        assert(one.drop_last() =~= done);
        assert(middle == before.insert(tool, exposed_name(group.server, tool)));
        let object = object_after(all);
        let alias = camel(tool);
        if has_alias(group.tools, tool) {
            assert(all.drop_last() =~= one);
            assert(all.last() == added[1]);
            assert(object == assigned(middle, added[1]));
        } else {
            assert(all =~= one);
        }
        assert(group.tools.contains(tool));
        assert forall|k: int| 0 <= k < n implies object.contains_key(#[trigger] group.tools[k])
            && object[group.tools[k]] == exposed_name(group.server, group.tools[k]) by {
            assert(group.tools.contains(group.tools[k]));
            if k < n - 1 {
                assert(before.contains_key(group.tools[k]));
            }
        }
        assert forall|k: int| 0 <= k < n && has_alias(group.tools, #[trigger] group.tools[k])
            implies object.contains_key(camel(group.tools[k])) by {
            if k < n - 1 {
                assert(before.contains_key(camel(group.tools[k])));
            }
        }
        assert forall|j: int, a: Seq<char>| j < n && #[trigger] first_with_alias(group, j, a)
            implies object[a] == exposed_name(group.server, group.tools[j]) by {
            assert(!group.tools.contains(a));
            if j < n - 1 {
                assert(before[a] == exposed_name(group.server, group.tools[j]));
                assert(before.contains_key(camel(group.tools[j])));
            } else {
                if before.contains_key(a) {
                    if exists|k: int| 0 <= k < n - 1 && #[trigger] group.tools[k] == a {
                        let k = choose|k: int| 0 <= k < n - 1 && #[trigger] group.tools[k] == a;
                        assert(group.tools.contains(group.tools[k]));
                    }
                }
                assert(!before.contains_key(a));
            }
        }
        assert forall|p: Seq<char>| #[trigger] object.contains_key(p) implies (exists|k: int|
            0 <= k < n && #[trigger] group.tools[k] == p) || (exists|k: int|
            0 <= k < n && has_alias(group.tools, #[trigger] group.tools[k]) && camel(
                group.tools[k],
            ) == p) by {
            if p == tool {
                assert(group.tools[n - 1] == p);
            } else if before.contains_key(p) {
                if exists|k: int| 0 <= k < n - 1 && #[trigger] group.tools[k] == p {
                    let k = choose|k: int| 0 <= k < n - 1 && #[trigger] group.tools[k] == p;
                    assert(0 <= k < n && group.tools[k] == p);
                } else {
                    let k = choose|k: int|
                        0 <= k < n - 1 && has_alias(group.tools, #[trigger] group.tools[k]) && camel(
                            group.tools[k],
                        ) == p;
                    assert(0 <= k < n && has_alias(group.tools, group.tools[k]) && camel(
                        group.tools[k],
                    ) == p);
                }
            } else {
                assert(has_alias(group.tools, group.tools[n - 1]) && camel(group.tools[n - 1])
                    == p);
            }
        }
    }
}

/// Each tool of a server can be called under its own name: no alias takes the place of it.
pub proof fn law_tools_keep_their_names(group: Group, tool: Seq<char>)
    requires
        group.tools.contains(tool),
    ensures
        object_after(statements(group)).contains_key(tool),
        object_after(statements(group))[tool] == exposed_name(group.server, tool),
{
    lemma_serves(group, group.tools.len() as int);
    let k = choose|k: int| 0 <= k < group.tools.len() && group.tools[k] == tool;
    assert(group.tools[k] == tool);
}

proof fn lemma_first_alias(group: Group, k: int) -> (j: int)
    requires
        0 <= k < group.tools.len(),
        has_alias(group.tools, group.tools[k]),
    ensures
        j <= k,
        first_with_alias(group, j, camel(group.tools[k])),
    decreases k,
{
    let alias = camel(group.tools[k]);
    if exists|i: int|
        0 <= i < k && has_alias(group.tools, #[trigger] group.tools[i]) && camel(group.tools[i])
            == alias {
        let i = choose|i: int|
            0 <= i < k && has_alias(group.tools, #[trigger] group.tools[i]) && camel(
                group.tools[i],
            ) == alias;
        lemma_first_alias(group, i)
    } else {
        k
    }
}

/// A tool whose camel-case name differs, is not empty and is no other tool of the server can be
/// called under that name too; where several tools of a server have the same camel-case
/// name, it calls the first of them.
pub proof fn law_aliases_call_their_tools(group: Group, tool: Seq<char>)
    requires
        group.tools.contains(tool),
        has_alias(group.tools, tool),
    ensures
        object_after(statements(group)).contains_key(camel(tool)),
        exists|j: int| #[trigger]
            first_with_alias(group, j, camel(tool)) && object_after(statements(group))[camel(tool)]
                == exposed_name(group.server, group.tools[j]),
{
    lemma_serves(group, group.tools.len() as int);
    let k = choose|k: int| 0 <= k < group.tools.len() && group.tools[k] == tool;
    assert(has_alias(group.tools, group.tools[k]));
    let j = lemma_first_alias(group, k);
    assert(first_with_alias(group, j, camel(tool)));
}

/// The object of a server has no other properties than its tools and their aliases.
pub proof fn law_no_other_stubs(group: Group, property: Seq<char>)
    requires
        object_after(statements(group)).contains_key(property),
    ensures
        group.tools.contains(property) || exists|k: int|
            0 <= k < group.tools.len() && has_alias(group.tools, #[trigger] group.tools[k])
                && camel(group.tools[k]) == property,
{
    lemma_serves(group, group.tools.len() as int);
    if exists|k: int| 0 <= k < group.tools.len() && #[trigger] group.tools[k] == property {
        let k = choose|k: int| 0 <= k < group.tools.len() && #[trigger] group.tools[k] == property;
        assert(group.tools.contains(group.tools[k]));
    }
}

/// The code for a catalog depends only on which tools it offers: neither the order of its
/// names, nor names that it repeats, nor names that are no tools make a difference.
pub proof fn law_order_and_repeats_do_not_matter(a: Seq<String>, b: Seq<String>)
    requires
        forall|server: Seq<char>, tool: Seq<char>| #[trigger]
            offers(a, server, tool) <==> offers(b, server, tool),
    ensures
        prelude_text(listing(a)) == prelude_text(listing(b)),
{
    lemma_listing(a);
    lemma_listing(b);
    let groups = listing(a);
    assert forall|server: Seq<char>, tool: Seq<char>| #[trigger]
        lists(groups, server, tool) <==> offers(b, server, tool) by {
        assert(offers(a, server, tool) <==> offers(b, server, tool));
    }
    assert(is_listing(groups, b));
}

/// A catalog without tools still gives the `servers` object, without servers, and an empty
/// catalog.
pub proof fn law_empty_catalog(catalog: Seq<String>)
    requires
        forall|server: Seq<char>, tool: Seq<char>| !#[trigger] offers(catalog, server, tool),
    ensures
        listing(catalog).len() == 0,
        prelude_text(listing(catalog)) == STUBS_HEAD@ + STUBS_CATALOG@ + STUBS_TAIL@,
{
    lemma_listing(catalog);
    let none: Seq<Group> = seq![];
    assert forall|server: Seq<char>, tool: Seq<char>| #[trigger]
        lists(none, server, tool) <==> offers(catalog, server, tool) by {}
    assert(is_listing(none, catalog));
    assert(listing(catalog) == none);
    assert(groups_text(none) =~= seq![]);
    assert(names_text(all_names(none)) =~= seq![]);
    assert(prelude_text(none) =~= STUBS_HEAD@ + STUBS_CATALOG@ + STUBS_TAIL@);
}

/// Whether the name of each listed tool splits into its server and the tool.
spec fn names_split(groups: Seq<Group>) -> bool {
    forall|server: Seq<char>, tool: Seq<char>| #[trigger]
        lists(groups, server, tool) ==> exposed_parts(exposed_name(server, tool)) == Some(
            (server, tool),
        )
}

proof fn lemma_prefix_in_order(groups: Seq<Group>)
    requires
        in_order(groups),
        names_split(groups),
        groups.len() > 0,
    ensures
        in_order(groups.drop_last()),
        names_split(groups.drop_last()),
{
    let rest = groups.drop_last();
    assert forall|i: int, j: int| 0 <= i < j < servers_of(rest).len() implies precedes(
        #[trigger] servers_of(rest)[i],
        #[trigger] servers_of(rest)[j],
    ) by {
        assert(servers_of(rest)[i] == servers_of(groups)[i]);
        assert(servers_of(rest)[j] == servers_of(groups)[j]);
    }
    assert forall|i: int| 0 <= i < rest.len() implies (#[trigger] rest[i]).tools.len() > 0
        && ascending(rest[i].tools) by {
        assert(rest[i] == groups[i]);
    }
    assert forall|server: Seq<char>, tool: Seq<char>| #[trigger] lists(rest, server, tool) implies
        exposed_parts(exposed_name(server, tool)) == Some((server, tool)) by {
        let i = choose|i: int|
            0 <= i < rest.len() && (#[trigger] rest[i]).server == server
                && rest[i].tools.contains(tool);
        assert(groups[i] == rest[i]);
        assert(lists(groups, server, tool));
    }
}

proof fn lemma_name_found(groups: Seq<Group>, name: Seq<char>)
    ensures
        all_names(groups).contains(name) <==> exists|server: Seq<char>, tool: Seq<char>|
            #[trigger] lists(groups, server, tool) && name == exposed_name(server, tool),
    decreases groups.len(),
{
    if groups.len() > 0 {
        let rest = groups.drop_last();
        let group = groups.last();
        let here = group_names(group);
        let earlier = all_names(rest);
        lemma_name_found(rest, name);
        if all_names(groups).contains(name) {
            let i = choose|i: int| 0 <= i < all_names(groups).len() && all_names(groups)[i] == name;
            if i < earlier.len() {
                assert(earlier[i] == name);
                let (server, tool) = choose|server: Seq<char>, tool: Seq<char>|
                    #[trigger] lists(rest, server, tool) && name == exposed_name(server, tool);
                let k = choose|k: int|
                    0 <= k < rest.len() && (#[trigger] rest[k]).server == server
                        && rest[k].tools.contains(tool);
                assert(groups[k] == rest[k]);
                assert(lists(groups, server, tool));
            } else {
                let tool = group.tools[i - earlier.len()];
                assert(here[i - earlier.len()] == exposed_name(group.server, tool));
                assert(groups[groups.len() - 1].tools.contains(tool));
                assert(lists(groups, group.server, tool));
            }
        }
        if exists|server: Seq<char>, tool: Seq<char>|
            #[trigger] lists(groups, server, tool) && name == exposed_name(server, tool) {
            let (server, tool) = choose|server: Seq<char>, tool: Seq<char>|
                #[trigger] lists(groups, server, tool) && name == exposed_name(server, tool);
            let k = choose|k: int|
                0 <= k < groups.len() && (#[trigger] groups[k]).server == server
                    && groups[k].tools.contains(tool);
            if k < rest.len() {
                assert(rest[k] == groups[k]);
                assert(lists(rest, server, tool));
                let i = choose|i: int| 0 <= i < earlier.len() && earlier[i] == name;
                assert(all_names(groups)[i] == name);
            } else {
                let t = choose|t: int| 0 <= t < group.tools.len() && group.tools[t] == tool;
                assert(here[t] == name);
                assert(all_names(groups)[earlier.len() + t] == name);
            }
        }
    } else {
        assert(all_names(groups) =~= seq![]);
    }
}

proof fn lemma_names_once(groups: Seq<Group>)
    requires
        in_order(groups),
        names_split(groups),
    ensures
        all_names(groups).no_duplicates(),
    decreases groups.len(),
{
    if groups.len() > 0 {
        let rest = groups.drop_last();
        let group = groups.last();
        let here = group_names(group);
        let earlier = all_names(rest);
        let all = all_names(groups);
        lemma_prefix_in_order(groups);
        lemma_names_once(rest);
        assert forall|i: int, j: int| 0 <= i < j < all.len() implies all[i] != all[j] by {
            if j < earlier.len() {
                assert(all[i] == earlier[i] && all[j] == earlier[j]);
            } else {
                let b = group.tools[j - earlier.len()];
                assert(all[j] == exposed_name(group.server, b));
                assert(groups[groups.len() - 1].tools.contains(b));
                assert(lists(groups, group.server, b));
                if i >= earlier.len() {
                    let a = group.tools[i - earlier.len()];
                    assert(all[i] == exposed_name(group.server, a));
                    assert(groups[groups.len() - 1].tools.contains(a));
                    assert(lists(groups, group.server, a));
                    lemma_precedes_asymmetric(a, b);
                } else {
                    assert(earlier.contains(earlier[i]));
                    lemma_name_found(rest, earlier[i]);
                    let (server, tool) = choose|server: Seq<char>, tool: Seq<char>|
                        #[trigger] lists(rest, server, tool) && earlier[i] == exposed_name(
                            server,
                            tool,
                        );
                    let k = choose|k: int|
                        0 <= k < rest.len() && (#[trigger] rest[k]).server == server
                            && rest[k].tools.contains(tool);
                    let servers = servers_of(groups);
                    assert(servers[k] == server && servers[groups.len() - 1] == group.server);
                    lemma_precedes_asymmetric(servers[k], servers[groups.len() - 1]);
                    assert(exposed_parts(exposed_name(server, tool)) == Some((server, tool)));
                }
            }
        }
    }
}

/// `toolport.listTools` gives the exposed names of the tools that the catalog offers, each of
/// them once, and no others; each is a name of the catalog.
pub proof fn law_tools_are_listed_once(catalog: Seq<String>)
    ensures
        all_names(listing(catalog)).no_duplicates(),
        forall|name: Seq<char>| #[trigger]
            all_names(listing(catalog)).contains(name) <==> exists|i: int|
                0 <= i < catalog.len() && #[trigger] catalog[i]@ == name && (exposed_parts(name) matches Some(
                    (server, tool),
                ) && server.len() > 0 && tool.len() > 0),
{
    lemma_listing(catalog);
    let groups = listing(catalog);
    assert forall|server: Seq<char>, tool: Seq<char>| #[trigger] lists(groups, server, tool) implies
        exposed_parts(exposed_name(server, tool)) == Some((server, tool)) by {
        assert(offers(catalog, server, tool));
        let i = choose|i: int|
            0 <= i < catalog.len() && exposed_parts(#[trigger] catalog[i]@) == Some((server, tool));
        lemma_parts_rejoin(catalog[i]@, server, tool);
    }
    lemma_names_once(groups);
    assert forall|name: Seq<char>| #[trigger] all_names(groups).contains(name) <==> exists|i: int|
        0 <= i < catalog.len() && #[trigger] catalog[i]@ == name && (exposed_parts(name) matches Some(
            (server, tool),
        ) && server.len() > 0 && tool.len() > 0) by {
        lemma_name_found(groups, name);
        if all_names(groups).contains(name) {
            let (server, tool) = choose|server: Seq<char>, tool: Seq<char>|
                #[trigger] lists(groups, server, tool) && name == exposed_name(server, tool);
            assert(offers(catalog, server, tool));
            let i = choose|i: int|
                0 <= i < catalog.len() && exposed_parts(#[trigger] catalog[i]@) == Some(
                    (server, tool),
                );
            lemma_parts_rejoin(catalog[i]@, server, tool);
            assert(catalog[i]@ == name);
        }
        if exists|i: int|
            0 <= i < catalog.len() && #[trigger] catalog[i]@ == name && (exposed_parts(name) matches Some(
                (server, tool),
            ) && server.len() > 0 && tool.len() > 0) {
            if let Some((server, tool)) = exposed_parts(name) {
                assert(offers(catalog, server, tool));
                assert(lists(groups, server, tool));
                lemma_parts_rejoin(name, server, tool);
            }
        }
    }
}

} // verus!
