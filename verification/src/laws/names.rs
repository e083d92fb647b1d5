//! Laws of tool names and script literals.

use vstd::prelude::*;

use crate::catalog::exposed_name;
use crate::names::camel;
use crate::names::camel_piece;
use crate::names::char_uppercase;
use crate::names::escape;
use crate::names::escaped;
use crate::names::exposed_parts;
use crate::names::first_separator_at;
use crate::names::is_ident;
use crate::names::lemma_parts_at;
use crate::names::literal;
use crate::names::separator_at;

verus! {

/// The value of a hexadecimal digit.
pub open spec fn hex_digit(c: char) -> Option<int> {
    if '0' <= c <= '9' {
        Some(c as int - '0' as int)
    } else if 'a' <= c <= 'f' {
        Some(c as int - 'a' as int + 10)
    } else if 'A' <= c <= 'F' {
        Some(c as int - 'A' as int + 10)
    } else {
        None
    }
}

/// The character that an escape with four hexadecimal digits denotes.
pub open spec fn hex_char(a: char, b: char, c: char, d: char) -> Option<char> {
    match (hex_digit(a), hex_digit(b), hex_digit(c), hex_digit(d)) {
        (Some(w), Some(x), Some(y), Some(z)) => {
            let n = w * 4096 + x * 256 + y * 16 + z;
            if 0xd800 <= n <= 0xdfff {
                None
            } else {
                Some(n as char)
            }
        },
        _ => None,
    }
}

/// The character that an escape with one letter denotes.
pub open spec fn letter_char(c: char) -> Option<char> {
    if c == 'n' {
        Some('\n')
    } else if c == 'r' {
        Some('\r')
    } else if c == '\\' || c == '\'' {
        Some(c)
    } else {
        None
    }
}

/// A character in front of a text that may be missing.
pub open spec fn in_front(c: Option<char>, rest: Option<Seq<char>>) -> Option<Seq<char>> {
    match (c, rest) {
        (Some(c), Some(rest)) => Some(seq![c] + rest),
        _ => None,
    }
}

/// Whether a script literal would end, or be broken off, at a character that stands in it
/// without an escape.
pub open spec fn ends_literal(c: char) -> bool {
    c == '\'' || c == '\n' || c == '\r' || c == '\u{2028}' || c == '\u{2029}'
}

/// How a script reads what stands between the quotes of a literal. Nothing is given where the
/// literal would end before its last quote, or where an escape is none of those that
/// [`letter_char`] and [`hex_char`] know.
pub open spec fn read_body(t: Seq<char>) -> Option<Seq<char>>
    decreases t.len(),
{
    if t.len() == 0 {
        Some(seq![])
    } else if t[0] == '\\' {
        if t.len() < 2 {
            None
        } else if t[1] == 'u' {
            if t.len() < 6 {
                None
            } else {
                in_front(hex_char(t[2], t[3], t[4], t[5]), read_body(t.skip(6)))
            }
        } else {
            in_front(letter_char(t[1]), read_body(t.skip(2)))
        }
    } else if ends_literal(t[0]) {
        None
    } else {
        in_front(Some(t[0]), read_body(t.skip(1)))
    }
}

/// How a script reads a single-quoted literal.
pub open spec fn read_literal(t: Seq<char>) -> Option<Seq<char>> {
    if t.len() >= 2 && t[0] == '\'' && t.last() == '\'' {
        read_body(t.subrange(1, t.len() - 1))
    } else {
        None
    }
}

proof fn lemma_read_escape(c: char, rest: Seq<char>)
    ensures
        read_body(escape(c) + rest) == in_front(Some(c), read_body(rest)),
{
    let t = escape(c) + rest;
    if c == '\u{2028}' || c == '\u{2029}' {
        assert(t.skip(6) =~= rest);
        assert(hex_digit('2') == Some(2int));
        assert(hex_digit('0') == Some(0int));
        assert(hex_char('2', '0', '2', '8') == Some('\u{2028}'));
        assert(hex_char('2', '0', '2', '9') == Some('\u{2029}'));
    } else if c == '\\' || c == '\'' || c == '\n' || c == '\r' {
        assert(t.skip(2) =~= rest);
    } else {
        assert(t.skip(1) =~= rest);
    }
}

/// The escapes of a text are those of its first character, and then those of the others.
pub proof fn lemma_escaped_first(s: Seq<char>)
    requires
        s.len() > 0,
    ensures
        escaped(s) == escape(s[0]) + escaped(s.drop_first()),
    decreases s.len(),
{
    if s.len() == 1 {
        assert(escaped(s.drop_last()) =~= seq![]);
        assert(escaped(s.drop_first()) =~= seq![]);
        assert(escaped(s) =~= escape(s[0]) + escaped(s.drop_first()));
    } else {
        lemma_escaped_first(s.drop_last());
        assert(s.drop_last().drop_first() =~= s.drop_first().drop_last());
        assert(escaped(s) =~= escape(s[0]) + escaped(s.drop_first()));
    }
}

proof fn lemma_read_escaped(s: Seq<char>)
    ensures
        read_body(escaped(s)) == Some(s),
    decreases s.len(),
{
    if s.len() == 0 {
        assert(s =~= seq![]);
    } else {
        lemma_escaped_first(s);
        lemma_read_escape(s[0], escaped(s.drop_first()));
        lemma_read_escaped(s.drop_first());
        assert(seq![s[0]] + s.drop_first() =~= s);
    }
}

/// A script reads the literal of a text as that text: no character of the text ends the
/// literal or is read as another.
pub proof fn law_literal_reads_back(s: Seq<char>)
    ensures
        read_literal(literal(s)) == Some(s),
{
    let t = literal(s);
    assert(t.subrange(1, t.len() - 1) =~= escaped(s));
    lemma_read_escaped(s);
}

/// Different texts have different literals.
pub proof fn law_literals_differ(a: Seq<char>, b: Seq<char>)
    requires
        a != b,
    ensures
        literal(a) != literal(b),
{
    law_literal_reads_back(a);
    law_literal_reads_back(b);
}

/// A name without underscores is its own camel-case form.
pub proof fn law_camel_keeps_plain_names(s: Seq<char>)
    requires
        !s.contains('_'),
    ensures
        camel(s) == s,
    decreases s.len(),
{
    if s.len() > 0 {
        let rest = s.drop_last();
        if rest.contains('_') {
            let i = choose|i: int| 0 <= i < rest.len() && rest[i] == '_';
            assert(s[i] == '_');
        }
        law_camel_keeps_plain_names(rest);
        assert(s.contains(s.last()));
        if s.len() > 1 {
            assert(s.contains(s[s.len() - 2]));
        }
        assert(camel_piece(s, s.len() - 1) =~= seq![s.last()]);
        assert(camel(s) =~= s);
    } else {
        assert(camel(s) =~= s);
    }
}

/// The parts of an exposed name, put together again, are the name.
pub proof fn law_split_then_join(name: Seq<char>)
    ensures
        exposed_parts(name) matches Some((server, tool)) ==> name == exposed_name(server, tool),
{
    if let Some((server, tool)) = exposed_parts(name) {
        crate::catalog::lemma_parts_rejoin(name, server, tool);
    }
}

/// The exposed name of a tool splits into the server and the tool, whatever the tool is
/// called. A server whose name holds a separator, or ends with an underscore, is another
/// matter: the name then splits earlier.
pub proof fn law_join_then_split(server: Seq<char>, tool: Seq<char>)
    requires
        forall|i: int| !#[trigger] separator_at(server, i),
        server.len() > 0 ==> server.last() != '_',
    ensures
        exposed_parts(exposed_name(server, tool)) == Some((server, tool)),
{
    let name = exposed_name(server, tool);
    let n = server.len() as int;
    assert(separator_at(name, n));
    assert forall|j: int| 0 <= j < n implies !#[trigger] separator_at(name, j) by {
        assert(!separator_at(server, j));
        assert(name[j] == server[j]);
        if j + 1 < n {
            assert(name[j + 1] == server[j + 1]);
        }
    }
    assert(first_separator_at(name, n));
    lemma_parts_at(name, n);
    assert(name.take(n) =~= server);
    assert(name.skip(n + 2) =~= tool);
}

/// Camel case goes by words: what stands before a place that follows no underscore, and what
/// stands after it, can be turned into camel case apart.
pub proof fn law_camel_goes_by_words(a: Seq<char>, b: Seq<char>)
    requires
        a.len() == 0 || a.last() != '_',
    ensures
        camel(a + b) == camel(a) + camel(b),
    decreases b.len(),
{
    if b.len() == 0 {
        assert(a + b =~= a);
        assert(camel(a + b) =~= camel(a) + camel(b));
    } else {
        let n = b.len() - 1;
        assert((a + b).drop_last() =~= a + b.drop_last());
        law_camel_goes_by_words(a, b.drop_last());
        if n == 0 && a.len() > 0 {
            assert((a + b)[a.len() - 1] == a.last());
        }
        if n > 0 {
            assert((a + b)[a.len() + n - 1] == b[n - 1]);
        }
        assert(camel_piece(a + b, a.len() + n) == camel_piece(b, n));
        assert(camel(a + b) =~= camel(a) + camel(b));
    }
}

/// An underscore disappears, and the character after it, unless that is an underscore too, is
/// replaced by its uppercase mapping; a character that follows no underscore stays as it is.
pub proof fn law_camel_raises_what_follows_underscores(c: char, rest: Seq<char>)
    requires
        c != '_',
    ensures
        camel(seq!['_']) == Seq::<char>::empty(),
        camel(seq!['_', '_'] + rest) == camel(seq!['_'] + rest),
        camel(seq!['_', c] + rest) == char_uppercase(c) + camel(rest),
        camel(seq![c] + rest) == seq![c] + camel(rest),
{
    let one = seq!['_'];
    assert(one.drop_last() =~= seq![]);
    assert(camel(one.drop_last()) == Seq::<char>::empty());
    assert(camel_piece(one, 0) == Seq::<char>::empty());
    assert(camel(one) =~= seq![]);
    let raised = seq!['_', c];
    assert(raised.drop_last() =~= one);
    assert(camel(raised) =~= char_uppercase(c));
    law_camel_goes_by_words(raised, rest);
    let plain = seq![c];
    assert(plain.drop_last() =~= seq![]);
    assert(camel(plain) =~= plain);
    law_camel_goes_by_words(plain, rest);
    lemma_double_underscore(rest);
}

proof fn lemma_double_underscore(rest: Seq<char>)
    ensures
        camel(seq!['_', '_'] + rest) == camel(seq!['_'] + rest),
    decreases rest.len(),
{
    let two = seq!['_', '_'] + rest;
    let one = seq!['_'] + rest;
    if rest.len() == 0 {
        assert(one =~= seq!['_']);
        assert(two.drop_last() =~= seq!['_']);
        assert(camel(two) =~= camel(one));
    } else {
        let n = rest.len() - 1;
        assert(two.drop_last() =~= seq!['_', '_'] + rest.drop_last());
        assert(one.drop_last() =~= seq!['_'] + rest.drop_last());
        lemma_double_underscore(rest.drop_last());
        assert(two[n + 1] == one[n]);
        assert(camel_piece(two, n + 2) == camel_piece(one, n + 1));
    }
}

/// The exposed name of a tool is its server, two underscores and the tool.
pub proof fn law_exposed_names(server: Seq<char>, tool: Seq<char>)
    ensures
        exposed_name(server, tool) == server + "__"@ + tool,
{
    reveal_strlit("__");
    assert("__"@ =~= seq!['_', '_']);
}

/// A name is split where two underscores stand next to each other for the first time, and is not
/// split where they stand nowhere.
pub proof fn law_names_split_at_the_first_separator(name: Seq<char>)
    ensures
        exposed_parts(name) matches Some((server, tool)) ==> {
            &&& name == server + "__"@ + tool
            &&& forall|j: int|
                0 <= j < server.len() ==> !(#[trigger] name[j] == '_' && name[j + 1] == '_')
        },
        exposed_parts(name) is None ==> forall|j: int|
            0 <= j < name.len() - 1 ==> !(#[trigger] name[j] == '_' && name[j + 1] == '_'),
{
    if let Some((server, tool)) = exposed_parts(name) {
        let i = choose|i: int| #[trigger] first_separator_at(name, i);
        assert(first_separator_at(name, i));
        assert(separator_at(name, i));
        law_split_then_join(name);
        law_exposed_names(server, tool);
        assert forall|j: int| 0 <= j < server.len() implies !(#[trigger] name[j] == '_' && name[j
            + 1] == '_') by {
            assert(!separator_at(name, j));
        }
    } else {
        assert forall|j: int| 0 <= j < name.len() - 1 implies !(#[trigger] name[j] == '_' && name[j
            + 1] == '_') by {
            if name[j] == '_' && name[j + 1] == '_' {
                let k = lemma_first_separator(name, j);
                assert(first_separator_at(name, k));
            }
        }
    }
}

proof fn lemma_first_separator(name: Seq<char>, j: int) -> (k: int)
    requires
        separator_at(name, j),
    ensures
        first_separator_at(name, k),
    decreases j,
{
    if exists|i: int| 0 <= i < j && #[trigger] separator_at(name, i) {
        let i = choose|i: int| 0 <= i < j && #[trigger] separator_at(name, i);
        lemma_first_separator(name, i)
    } else {
        j
    }
}

/// An identifier is made of ASCII letters, digits, `_` and `$`, and begins with no digit.
pub proof fn law_identifiers(s: Seq<char>)
    ensures
        is_ident(s) <==> {
            &&& s.len() > 0
            &&& !('0' <= s[0] <= '9')
            &&& forall|i: int|
                0 <= i < s.len() ==> 'a' <= (#[trigger] s[i]) <= 'z' || 'A' <= s[i] <= 'Z' || '0'
                    <= s[i] <= '9' || s[i] == '_' || s[i] == '$'
        },
{
}

} // verus!
