//! The tools of a catalog: which tools its exposed names offer, and the listing of them by
//! server.

use vstd::prelude::*;

use crate::names::exposed_parts;
use crate::names::first_separator_at;
use crate::names::separator_at;
use crate::names::split_exposed_name;
use crate::text::lemma_precedes_asymmetric;
use crate::text::lemma_precedes_total;
use crate::text::lemma_precedes_transitive;
use crate::text::place_of;
use crate::text::precedes;
use crate::text::same_text;
use crate::text::Place;

verus! {

/// One server of a catalog with its tools.
#[verifier::ext_equal]
pub struct Group {
    pub server: Seq<char>,
    pub tools: Seq<Seq<char>>,
}

/// The exposed name of a tool on a server.
pub open spec fn exposed_name(server: Seq<char>, tool: Seq<char>) -> Seq<char> {
    server + seq!['_', '_'] + tool
}

/// Whether a catalog offers a tool: one of its names has these parts, neither of them empty.
pub open spec fn offers(catalog: Seq<String>, server: Seq<char>, tool: Seq<char>) -> bool {
    &&& server.len() > 0
    &&& tool.len() > 0
    &&& exists|i: int|
        0 <= i < catalog.len() && exposed_parts(#[trigger] catalog[i]@) == Some((server, tool))
}

/// Whether texts stand in strictly ascending order.
pub open spec fn ascending(keys: Seq<Seq<char>>) -> bool {
    forall|i: int, j: int|
        0 <= i < j < keys.len() ==> precedes(#[trigger] keys[i], #[trigger] keys[j])
}

/// The servers of a sequence of groups.
pub open spec fn servers_of(groups: Seq<Group>) -> Seq<Seq<char>> {
    groups.map_values(|g: Group| g.server)
}

/// Whether one of the groups lists a tool of a server.
pub open spec fn lists(groups: Seq<Group>, server: Seq<char>, tool: Seq<char>) -> bool {
    exists|i: int|
        0 <= i < groups.len() && (#[trigger] groups[i]).server == server
            && groups[i].tools.contains(tool)
}

/// Whether the groups are in order: servers strictly ascending, and on each server at
/// least one tool, the tools strictly ascending.
pub open spec fn in_order(groups: Seq<Group>) -> bool {
    &&& ascending(servers_of(groups))
    &&& forall|i: int|
        0 <= i < groups.len() ==> (#[trigger] groups[i]).tools.len() > 0 && ascending(
            groups[i].tools,
        )
}

/// Whether the groups are the listing of a catalog: they are in order, and they list a
/// tool exactly if the catalog offers it.
pub open spec fn is_listing(groups: Seq<Group>, catalog: Seq<String>) -> bool {
    &&& in_order(groups)
    &&& forall|server: Seq<char>, tool: Seq<char>|
        #[trigger] lists(groups, server, tool) <==> offers(catalog, server, tool)
}

/// The listing of a catalog. There is exactly one: see [`lemma_listing`].
pub open spec fn listing(catalog: Seq<String>) -> Seq<Group> {
    choose|groups: Seq<Group>| is_listing(groups, catalog)
}

/// One tool with the name under which the gateway exposes it.
pub(crate) struct ToolEntry {
    pub(crate) tool: String,
    pub(crate) exposed: String,
}

/// One server with its tools.
pub(crate) struct ServerTools {
    pub(crate) server: String,
    pub(crate) tools: Vec<ToolEntry>,
}

pub(crate) open spec fn tools_of(entries: Seq<ToolEntry>) -> Seq<Seq<char>> {
    entries.map_values(|e: ToolEntry| e.tool@)
}

impl ServerTools {
    pub(crate) open spec fn group(self) -> Group {
        Group { server: self.server@, tools: tools_of(self.tools@) }
    }

    pub(crate) open spec fn names_match(self) -> bool {
        forall|k: int|
            0 <= k < self.tools@.len() ==> (#[trigger] self.tools@[k]).exposed@ == exposed_name(
                self.server@,
                self.tools@[k].tool@,
            )
    }
}

pub(crate) open spec fn groups_of(servers: Seq<ServerTools>) -> Seq<Group> {
    servers.map_values(|s: ServerTools| s.group())
}

pub(crate) open spec fn all_match(servers: Seq<ServerTools>) -> bool {
    forall|i: int| 0 <= i < servers.len() ==> (#[trigger] servers[i]).names_match()
}

/// Where `key` belongs among ascending keys: all before it are smaller, none after is.
spec fn place_among(keys: Seq<Seq<char>>, i: int, key: Seq<char>) -> bool {
    &&& 0 <= i <= keys.len()
    &&& forall|j: int| 0 <= j < i ==> precedes(#[trigger] keys[j], key)
    &&& i < keys.len() ==> keys[i] == key || precedes(key, keys[i])
}

proof fn lemma_insert_ascending(keys: Seq<Seq<char>>, i: int, key: Seq<char>)
    requires
        ascending(keys),
        place_among(keys, i, key),
        i < keys.len() ==> keys[i] != key,
    ensures
        ascending(keys.insert(i, key)),
{
    let after = keys.insert(i, key);
    assert forall|a: int, b: int| 0 <= a < b < after.len() implies precedes(
        #[trigger] after[a],
        #[trigger] after[b],
    ) by {
        if a == i {
            assert(after[b] == keys[b - 1]);
            if b - 1 > i {
                lemma_precedes_transitive(key, keys[i], keys[b - 1]);
            }
        } else if b == i {
            assert(after[a] == keys[a]);
        } else {
            let x = if a < i { a } else { a - 1 };
            let y = if b < i { b } else { b - 1 };
            assert(after[a] == keys[x] && after[b] == keys[y]);
        }
    }
}

proof fn lemma_insert_contains<A>(s: Seq<A>, i: int, a: A)
    requires
        0 <= i <= s.len(),
    ensures
        forall|x: A| #[trigger] s.insert(i, a).contains(x) <==> x == a || s.contains(x),
{
    let after = s.insert(i, a);
    assert forall|x: A| #[trigger] after.contains(x) <==> x == a || s.contains(x) by {
        if s.contains(x) {
            let k = choose|k: int| 0 <= k < s.len() && s[k] == x;
            assert(after[if k < i { k } else { k + 1 }] == x);
        }
        if x == a {
            assert(after[i] == x);
        }
        if after.contains(x) {
            let k = choose|k: int| 0 <= k < after.len() && after[k] == x;
            if k != i {
                assert(s[if k < i { k } else { k - 1 }] == x);
            }
        }
    }
}

proof fn lemma_place_exists(keys: Seq<Seq<char>>, key: Seq<char>) -> (i: int)
    requires
        ascending(keys),
    ensures
        place_among(keys, i, key),
    decreases keys.len(),
{
    if keys.len() == 0 {
        0
    } else {
        lemma_precedes_total(keys.last(), key);
        if precedes(keys.last(), key) {
            assert forall|j: int| 0 <= j < keys.len() implies precedes(
                #[trigger] keys[j],
                key,
            ) by {
                if j < keys.len() - 1 {
                    lemma_precedes_transitive(keys[j], keys.last(), key);
                }
            }
            keys.len() as int
        } else {
            let i = lemma_place_exists(keys.drop_last(), key);
            assert(forall|j: int| 0 <= j < i ==> #[trigger] keys[j] == keys.drop_last()[j]);
            i
        }
    }
}

/// Ascending sequences of the same texts are equal.
pub proof fn lemma_ascending_unique(a: Seq<Seq<char>>, b: Seq<Seq<char>>)
    requires
        ascending(a),
        ascending(b),
        forall|x: Seq<char>| #[trigger] a.contains(x) <==> b.contains(x),
    ensures
        a == b,
    decreases a.len(),
{
    if a.len() == 0 {
        if b.len() > 0 {
            assert(b.contains(b[0]));
            assert(a.contains(b[0]));
        }
        assert(a =~= b);
    } else {
        assert(a.contains(a.last()));
        assert(b.contains(a.last()));
        assert(b.contains(b.last()));
        assert(a.contains(b.last()));
        let i = choose|i: int| 0 <= i < a.len() && a[i] == b.last();
        let j = choose|j: int| 0 <= j < b.len() && b[j] == a.last();
        if a.last() != b.last() {
            lemma_precedes_asymmetric(a[i], a[a.len() - 1]);
            assert(precedes(b[j], b[b.len() - 1]));
        }
        let x = a.drop_last();
        let y = b.drop_last();
        assert forall|k: Seq<char>| #[trigger] x.contains(k) <==> y.contains(k) by {
            if x.contains(k) {
                let m = choose|m: int| 0 <= m < x.len() && x[m] == k;
                assert(a[m] == k);
                assert(a.contains(k));
                lemma_precedes_asymmetric(a[m], a[a.len() - 1]);
                let n = choose|n: int| 0 <= n < b.len() && b[n] == k;
                assert(y[n] == k);
            }
            if y.contains(k) {
                let m = choose|m: int| 0 <= m < y.len() && y[m] == k;
                assert(b[m] == k);
                assert(b.contains(k));
                assert(a.contains(k));
                lemma_precedes_asymmetric(b[m], b[b.len() - 1]);
                let n = choose|n: int| 0 <= n < a.len() && a[n] == k;
                assert(x[n] == k);
            }
        }
        assert(forall|m: int, n: int|
            0 <= m < n < x.len() ==> precedes(#[trigger] x[m], #[trigger] x[n])) by {
            assert forall|m: int, n: int| 0 <= m < n < x.len() implies precedes(
                #[trigger] x[m],
                #[trigger] x[n],
            ) by {
                assert(precedes(a[m], a[n]));
            }
        }
        assert(forall|m: int, n: int|
            0 <= m < n < y.len() ==> precedes(#[trigger] y[m], #[trigger] y[n])) by {
            assert forall|m: int, n: int| 0 <= m < n < y.len() implies precedes(
                #[trigger] y[m],
                #[trigger] y[n],
            ) by {
                assert(precedes(b[m], b[n]));
            }
        }
        lemma_ascending_unique(x, y);
        assert(a =~= x.push(a.last()));
        assert(b =~= y.push(b.last()));
    }
}

/// A group lists a tool exactly if the groups, being in order, list it for its server.
proof fn lemma_lists_at(groups: Seq<Group>, i: int, tool: Seq<char>)
    requires
        in_order(groups),
        0 <= i < groups.len(),
    ensures
        lists(groups, groups[i].server, tool) <==> groups[i].tools.contains(tool),
{
    if lists(groups, groups[i].server, tool) {
        let k = choose|k: int|
            0 <= k < groups.len() && (#[trigger] groups[k]).server == groups[i].server
                && groups[k].tools.contains(tool);
        let servers = servers_of(groups);
        assert(servers[k] == groups[k].server && servers[i] == groups[i].server);
        if k < i {
            lemma_precedes_asymmetric(servers[k], servers[i]);
        } else if i < k {
            lemma_precedes_asymmetric(servers[i], servers[k]);
        }
    }
}

/// Groups in order that list the same tools are equal.
pub proof fn lemma_groups_unique(a: Seq<Group>, b: Seq<Group>)
    requires
        in_order(a),
        in_order(b),
        forall|s: Seq<char>, t: Seq<char>| #[trigger] lists(a, s, t) <==> lists(b, s, t),
    ensures
        a == b,
{
    assert forall|s: Seq<char>| #[trigger]
        servers_of(a).contains(s) <==> servers_of(b).contains(s) by {
        lemma_server_listed(a, b, s);
        lemma_server_listed(b, a, s);
    }
    lemma_ascending_unique(servers_of(a), servers_of(b));
    assert(servers_of(a).len() == a.len());
    assert(servers_of(b).len() == b.len());
    assert forall|i: int| 0 <= i < a.len() implies a[i] == b[i] by {
        assert(servers_of(a)[i] == a[i].server);
        assert(servers_of(b)[i] == b[i].server);
        assert forall|t: Seq<char>| #[trigger]
            a[i].tools.contains(t) <==> b[i].tools.contains(t) by {
            lemma_lists_at(a, i, t);
            lemma_lists_at(b, i, t);
            assert(lists(a, a[i].server, t) <==> lists(b, a[i].server, t));
        }
        lemma_ascending_unique(a[i].tools, b[i].tools);
        assert(a[i] =~= b[i]);
    }
    assert(a =~= b);
}

proof fn lemma_server_listed(a: Seq<Group>, b: Seq<Group>, s: Seq<char>)
    requires
        in_order(a),
        forall|s: Seq<char>, t: Seq<char>| #[trigger] lists(a, s, t) <==> lists(b, s, t),
    ensures
        servers_of(a).contains(s) ==> servers_of(b).contains(s),
{
    if servers_of(a).contains(s) {
        let i = choose|i: int| 0 <= i < servers_of(a).len() && servers_of(a)[i] == s;
        assert(a[i].server == s);
        assert(a[i].tools.contains(a[i].tools[0]));
        assert(lists(a, s, a[i].tools[0]));
        assert(lists(b, s, a[i].tools[0]));
        let k = choose|k: int|
            0 <= k < b.len() && (#[trigger] b[k]).server == s && b[k].tools.contains(
                a[i].tools[0],
            );
        assert(servers_of(b)[k] == s);
    }
}

fn tool_place(entries: &Vec<ToolEntry>, tool: &str) -> (at: usize)
    requires
        ascending(tools_of(entries@)),
    ensures
        place_among(tools_of(entries@), at as int, tool@),
{
    let mut i: usize = 0;
    while i < entries.len()
        invariant
            i <= entries@.len(),
            forall|j: int| 0 <= j < i ==> precedes(#[trigger] tools_of(entries@)[j], tool@),
        decreases entries@.len() - i,
    {
        match place_of(entries[i].tool.as_str(), tool) {
            Place::Before => {
                i = i + 1;
            },
            Place::Same => {
                return i;
            },
            Place::After => {
                return i;
            },
        }
    }
    i
}

/// Adds a tool to the ascending tools of a server, unless it is there.
fn add_tool(entries: &mut Vec<ToolEntry>, tool: &str, exposed: &String)
    requires
        ascending(tools_of(old(entries)@)),
    ensures
        ascending(tools_of(final(entries)@)),
        final(entries)@.len() > 0,
        forall|x: Seq<char>| #[trigger]
            tools_of(final(entries)@).contains(x) <==> x == tool@ || tools_of(
                old(entries)@,
            ).contains(x),
        forall|k: int|
            0 <= k < final(entries)@.len() ==> old(entries)@.contains(
                #[trigger] final(entries)@[k],
            ) || (final(entries)@[k].tool@ == tool@ && final(entries)@[k].exposed@ == exposed@),
{
    let at: usize = tool_place(entries, tool);
    let ghost before = entries@;
    if at < entries.len() && same_text(entries[at].tool.as_str(), tool) {
        assert(tools_of(before)[at as int] == tool@);
        assert forall|k: int| 0 <= k < before.len() implies before.contains(
            #[trigger] before[k],
        ) by {}
        return;
    }
    let entry: ToolEntry = ToolEntry { tool: tool.to_owned(), exposed: exposed.clone() };
    entries.insert(at, entry);
    proof {
        assert(tools_of(entries@) =~= tools_of(before).insert(at as int, tool@));
        lemma_insert_ascending(tools_of(before), at as int, tool@);
        lemma_insert_contains(tools_of(before), at as int, tool@);
        lemma_insert_contains(before, at as int, entry);
        assert forall|k: int| 0 <= k < entries@.len() implies before.contains(
            #[trigger] entries@[k],
        ) || (entries@[k].tool@ == tool@ && entries@[k].exposed@ == exposed@) by {
            assert(entries@.contains(entries@[k]));
        }
    }
}

fn server_place(servers: &Vec<ServerTools>, server: &str) -> (at: usize)
    ensures
        place_among(servers_of(groups_of(servers@)), at as int, server@),
{
    let mut i: usize = 0;
    while i < servers.len()
        invariant
            i <= servers@.len(),
            forall|j: int|
                0 <= j < i ==> precedes(
                    #[trigger] servers_of(groups_of(servers@))[j],
                    server@,
                ),
        decreases servers@.len() - i,
    {
        match place_of(servers[i].server.as_str(), server) {
            Place::Before => {
                i = i + 1;
            },
            Place::Same => {
                return i;
            },
            Place::After => {
                return i;
            },
        }
    }
    i
}

proof fn lemma_group_added(groups: Seq<Group>, at: int, group: Group, tool: Seq<char>)
    requires
        in_order(groups),
        place_among(servers_of(groups), at, group.server),
        at < groups.len() ==> groups[at].server != group.server,
        group.tools == seq![tool],
    ensures
        in_order(groups.insert(at, group)),
        forall|s: Seq<char>, t: Seq<char>| #[trigger]
            lists(groups.insert(at, group), s, t) <==> lists(groups, s, t) || (s == group.server
                && t == tool),
{
    let after = groups.insert(at, group);
    assert(servers_of(after) =~= servers_of(groups).insert(at, group.server));
    lemma_insert_ascending(servers_of(groups), at, group.server);
    assert forall|i: int| 0 <= i < after.len() implies (#[trigger] after[i]).tools.len() > 0
        && ascending(after[i].tools) by {
        if i != at {
            assert(after[i] == groups[if i < at { i } else { i - 1 }]);
        }
    }
    assert forall|s: Seq<char>, t: Seq<char>| #[trigger]
        lists(after, s, t) <==> lists(groups, s, t) || (s == group.server && t == tool) by {
        if lists(groups, s, t) {
            let i = choose|i: int|
                0 <= i < groups.len() && (#[trigger] groups[i]).server == s
                    && groups[i].tools.contains(t);
            assert(after[if i < at { i } else { i + 1 }] == groups[i]);
        }
        if s == group.server && t == tool {
            assert(after[at].tools[0] == t);
        }
        if lists(after, s, t) {
            let i = choose|i: int|
                0 <= i < after.len() && (#[trigger] after[i]).server == s
                    && after[i].tools.contains(t);
            if i != at {
                assert(after[i] == groups[if i < at { i } else { i - 1 }]);
            }
        }
    }
}

proof fn lemma_group_extended(groups: Seq<Group>, at: int, group: Group, tool: Seq<char>)
    requires
        in_order(groups),
        0 <= at < groups.len(),
        groups[at].server == group.server,
        group.tools.len() > 0,
        ascending(group.tools),
        forall|t: Seq<char>| #[trigger]
            group.tools.contains(t) <==> t == tool || groups[at].tools.contains(t),
    ensures
        in_order(groups.update(at, group)),
        forall|s: Seq<char>, t: Seq<char>| #[trigger]
            lists(groups.update(at, group), s, t) <==> lists(groups, s, t) || (s == group.server
                && t == tool),
{
    let after = groups.update(at, group);
    assert(servers_of(after) =~= servers_of(groups));
    assert forall|s: Seq<char>, t: Seq<char>| #[trigger]
        lists(after, s, t) <==> lists(groups, s, t) || (s == group.server && t == tool) by {
        if lists(groups, s, t) {
            let i = choose|i: int|
                0 <= i < groups.len() && (#[trigger] groups[i]).server == s
                    && groups[i].tools.contains(t);
            assert(after[i].server == s && after[i].tools.contains(t));
        }
        if s == group.server && t == tool {
            assert(after[at].server == s && after[at].tools.contains(t));
        }
        if lists(after, s, t) {
            let i = choose|i: int|
                0 <= i < after.len() && (#[trigger] after[i]).server == s
                    && after[i].tools.contains(t);
            assert(groups[i].server == s);
        }
    }
}

/// Adds a tool to the listing, unless it is there.
fn add_entry(servers: &mut Vec<ServerTools>, server: &str, tool: &str, exposed: &String)
    requires
        in_order(groups_of(old(servers)@)),
        all_match(old(servers)@),
        exposed@ == exposed_name(server@, tool@),
    ensures
        in_order(groups_of(final(servers)@)),
        all_match(final(servers)@),
        forall|s: Seq<char>, t: Seq<char>| #[trigger]
            lists(groups_of(final(servers)@), s, t) <==> lists(groups_of(old(servers)@), s, t) || (s
                == server@ && t == tool@),
{
    let at: usize = server_place(servers, server);
    let ghost before = servers@;
    let ghost groups = groups_of(before);
    if at < servers.len() && same_text(servers[at].server.as_str(), server) {
        assert(groups[at as int].server == server@);
        assert(groups[at as int] == before[at as int].group());
        assert(before[at as int].names_match());
        add_tool(&mut servers[at].tools, tool, exposed);
        proof {
            let entry = servers@[at as int];
            assert(servers@ == before.update(at as int, entry));
            assert(entry.server == before[at as int].server);
            assert(groups_of(servers@) =~= groups.update(at as int, entry.group()));
            lemma_group_extended(groups, at as int, entry.group(), tool@);
            assert forall|k: int| 0 <= k < entry.tools@.len() implies (
            #[trigger] entry.tools@[k]).exposed@ == exposed_name(
                entry.server@,
                entry.tools@[k].tool@,
            ) by {
                let earlier = before[at as int].tools@;
                if earlier.contains(entry.tools@[k]) {
                    let j = choose|j: int| 0 <= j < earlier.len() && earlier[j] == entry.tools@[k];
                    assert(earlier[j].exposed@ == exposed_name(server@, earlier[j].tool@));
                }
            }
            assert(entry.names_match());
            assert forall|i: int| 0 <= i < servers@.len() implies (
            #[trigger] servers@[i]).names_match() by {
                if i != at {
                    assert(servers@[i] == before[i]);
                }
            }
        }
        return;
    }
    let mut tools: Vec<ToolEntry> = Vec::new();
    tools.push(ToolEntry { tool: tool.to_owned(), exposed: exposed.clone() });
    let entry: ServerTools = ServerTools { server: server.to_owned(), tools: tools };
    servers.insert(at, entry);
    proof {
        assert(entry.group().tools =~= seq![tool@]);
        assert(groups_of(servers@) =~= groups.insert(at as int, entry.group()));
        assert(at < groups.len() ==> servers_of(groups)[at as int] == groups[at as int].server);
        lemma_group_added(groups, at as int, entry.group(), tool@);
        assert(entry.names_match());
        assert forall|i: int| 0 <= i < servers@.len() implies (
        #[trigger] servers@[i]).names_match() by {
            if i != at {
                assert(servers@[i] == before[if i < at { i } else { i - 1 }]);
            }
        }
    }
}

/// A name is its server, the separator and its tool.
pub proof fn lemma_parts_rejoin(name: Seq<char>, server: Seq<char>, tool: Seq<char>)
    requires
        exposed_parts(name) == Some((server, tool)),
    ensures
        name == exposed_name(server, tool),
{
    let i = choose|i: int| #[trigger] first_separator_at(name, i);
    assert(first_separator_at(name, i));
    assert(separator_at(name, i));
    assert(name =~= name.take(i) + seq!['_', '_'] + name.skip(i + 2));
}

proof fn lemma_offers_next(catalog: Seq<String>, n: int)
    requires
        0 <= n < catalog.len(),
    ensures
        forall|s: Seq<char>, t: Seq<char>| #[trigger]
            offers(catalog.take(n + 1), s, t) <==> offers(catalog.take(n), s, t) || (s.len() > 0
                && t.len() > 0 && exposed_parts(catalog[n]@) == Some((s, t))),
{
    let longer = catalog.take(n + 1);
    let shorter = catalog.take(n);
    assert forall|s: Seq<char>, t: Seq<char>| #[trigger]
        offers(longer, s, t) <==> offers(shorter, s, t) || (s.len() > 0 && t.len() > 0
            && exposed_parts(catalog[n]@) == Some((s, t))) by {
        if offers(shorter, s, t) {
            let i = choose|i: int|
                0 <= i < shorter.len() && exposed_parts(#[trigger] shorter[i]@) == Some((s, t));
            assert(longer[i] == shorter[i]);
        }
        if exposed_parts(catalog[n]@) == Some((s, t)) {
            assert(longer[n] == catalog[n]);
        }
        if offers(longer, s, t) {
            let i = choose|i: int|
                0 <= i < longer.len() && exposed_parts(#[trigger] longer[i]@) == Some((s, t));
            if i < n {
                assert(shorter[i] == longer[i]);
            }
        }
    }
}

/// A tool can be added to groups in order.
proof fn lemma_can_add(groups: Seq<Group>, server: Seq<char>, tool: Seq<char>) -> (after: Seq<
    Group,
>)
    requires
        in_order(groups),
    ensures
        in_order(after),
        forall|s: Seq<char>, t: Seq<char>| #[trigger]
            lists(after, s, t) <==> lists(groups, s, t) || (s == server && t == tool),
{
    let at = lemma_place_exists(servers_of(groups), server);
    assert(at < groups.len() ==> servers_of(groups)[at] == groups[at].server);
    if at < groups.len() && groups[at].server == server {
        let tools = groups[at].tools;
        if tools.contains(tool) {
            assert(lists(groups, server, tool));
            groups
        } else {
            let k = lemma_place_exists(tools, tool);
            if k < tools.len() {
                assert(tools.contains(tools[k]));
            }
            lemma_insert_ascending(tools, k, tool);
            lemma_insert_contains(tools, k, tool);
            let group = Group { server, tools: tools.insert(k, tool) };
            lemma_group_extended(groups, at, group, tool);
            groups.update(at, group)
        }
    } else {
        let group = Group { server, tools: seq![tool] };
        lemma_group_added(groups, at, group, tool);
        groups.insert(at, group)
    }
}

proof fn lemma_listing_exists(catalog: Seq<String>) -> (groups: Seq<Group>)
    ensures
        is_listing(groups, catalog),
    decreases catalog.len(),
{
    if catalog.len() == 0 {
        seq![]
    } else {
        let shorter = lemma_listing_exists(catalog.drop_last());
        let n = catalog.len() - 1;
        lemma_offers_next(catalog, n);
        assert(catalog.take(n) =~= catalog.drop_last());
        assert(catalog.take(n + 1) =~= catalog);
        match exposed_parts(catalog[n]@) {
            Some((server, tool)) => {
                if server.len() > 0 && tool.len() > 0 {
                    lemma_can_add(shorter, server, tool)
                } else {
                    shorter
                }
            },
            None => shorter,
        }
    }
}

/// Every catalog has a listing, and only one.
pub proof fn lemma_listing(catalog: Seq<String>)
    ensures
        is_listing(listing(catalog), catalog),
        forall|groups: Seq<Group>| #[trigger]
            is_listing(groups, catalog) ==> groups == listing(catalog),
{
    let found = lemma_listing_exists(catalog);
    assert(is_listing(found, catalog));
    assert forall|groups: Seq<Group>| #[trigger] is_listing(groups, catalog) implies groups
        == listing(catalog) by {
        let chosen = listing(catalog);
        assert(is_listing(chosen, catalog));
        assert forall|s: Seq<char>, t: Seq<char>| #[trigger]
            lists(groups, s, t) <==> lists(chosen, s, t) by {
            assert(lists(groups, s, t) <==> offers(catalog, s, t));
        }
        lemma_groups_unique(groups, chosen);
    }
}

/// The listing of a catalog.
pub(crate) fn list_catalog(catalog: &[String]) -> (servers: Vec<ServerTools>)
    ensures
        is_listing(groups_of(servers@), catalog@),
        all_match(servers@),
{
    let mut servers: Vec<ServerTools> = Vec::new();
    let mut i: usize = 0;
    while i < catalog.len()
        invariant
            i <= catalog@.len(),
            is_listing(groups_of(servers@), catalog@.take(i as int)),
            all_match(servers@),
        decreases catalog@.len() - i,
    {
        proof {
            lemma_offers_next(catalog@, i as int);
        }
        if let Some((server, tool)) = split_exposed_name(catalog[i].as_str()) {
            if !server.is_empty() && !tool.is_empty() {
                proof {
                    lemma_parts_rejoin(catalog@[i as int]@, server@, tool@);
                }
                add_entry(&mut servers, server, tool, &catalog[i]);
            }
        }
        i = i + 1;
    }
    assert(catalog@.take(i as int) =~= catalog@);
    servers
}

} // verus!
