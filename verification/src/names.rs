//! Tool names: how exposed names split, and how they are written in script code.

use vstd::prelude::*;

use crate::laws::names::law_camel_keeps_plain_names;
use crate::text::begins_with;
use crate::text::chars_of;
use crate::text::has_prefix;

verus! {

/// Whether the separator `__` stands at place `i` of `name`.
pub open spec fn separator_at(name: Seq<char>, i: int) -> bool {
    0 <= i && i + 1 < name.len() && name[i] == '_' && name[i + 1] == '_'
}

/// Whether the first separator of `name` stands at place `i`.
pub open spec fn first_separator_at(name: Seq<char>, i: int) -> bool {
    &&& separator_at(name, i)
    &&& forall|j: int| 0 <= j < i ==> !#[trigger] separator_at(name, j)
}

/// The server and the tool of an exposed name: what stands before and after its first
/// separator, or nothing where it has none.
pub open spec fn exposed_parts(name: Seq<char>) -> Option<(Seq<char>, Seq<char>)> {
    if exists|i: int| #[trigger] first_separator_at(name, i) {
        let i = choose|i: int| #[trigger] first_separator_at(name, i);
        Some((name.take(i), name.skip(i + 2)))
    } else {
        None
    }
}

/// The views of a pair of texts.
pub open spec fn views_of(parts: Option<(&str, &str)>) -> Option<(Seq<char>, Seq<char>)> {
    match parts {
        Some((server, tool)) => Some((server@, tool@)),
        None => None,
    }
}

/// Splits an exposed `server__tool` name at its first `__`. Gives nothing where the
/// separator is missing.
pub fn split_exposed_name(exposed: &str) -> (parts: Option<(&str, &str)>)
    ensures
        views_of(parts) == exposed_parts(exposed@),
{
    let chars: Vec<char> = chars_of(exposed);
    let len: usize = chars.len();
    let mut i: usize = 0;
    while i < len && i + 1 < len
        invariant
            chars@ == exposed@,
            len == chars@.len(),
            i <= len,
            forall|j: int| 0 <= j < i ==> !#[trigger] separator_at(exposed@, j),
        decreases len - i,
    {
        if chars[i] == '_' && chars[i + 1] == '_' {
            assert(first_separator_at(exposed@, i as int));
            let server: &str = exposed.substring_char(0, i);
            let tool: &str = exposed.substring_char(i + 2, len);
            assert(server@ =~= exposed@.take(i as int));
            assert(tool@ =~= exposed@.skip(i + 2));
            proof {
                lemma_parts_at(exposed@, i as int);
            }
            return Some((server, tool));
        }
        i = i + 1;
    }
    assert forall|j: int| !#[trigger] first_separator_at(exposed@, j) by {
        if first_separator_at(exposed@, j) {
            assert(separator_at(exposed@, j));
        }
    }
    None
}

/// The parts of a name, read off at the place of its first separator.
pub proof fn lemma_parts_at(name: Seq<char>, i: int)
    requires
        first_separator_at(name, i),
    ensures
        exposed_parts(name) == Some((name.take(i), name.skip(i + 2))),
{
    let k = choose|k: int| #[trigger] first_separator_at(name, k);
    assert(first_separator_at(name, k));
    assert(separator_at(name, k));
    assert(separator_at(name, i));
}

/// Whether `name` is one of the gateway's own tools, which get no stub.
pub fn is_code_mode_meta_tool(name: &str) -> (meta: bool)
    ensures
        meta == (begins_with(name@, "toolport_"@) || begins_with(name@, "help_"@)),
{
    has_prefix(name, "toolport_") || has_prefix(name, "help_")
}

/// How one character is written inside a single-quoted script literal.
pub open spec fn escape(c: char) -> Seq<char> {
    if c == '\\' {
        seq!['\\', '\\']
    } else if c == '\'' {
        seq!['\\', '\'']
    } else if c == '\n' {
        seq!['\\', 'n']
    } else if c == '\r' {
        seq!['\\', 'r']
    } else if c == '\u{2028}' {
        seq!['\\', 'u', '2', '0', '2', '8']
    } else if c == '\u{2029}' {
        seq!['\\', 'u', '2', '0', '2', '9']
    } else {
        seq![c]
    }
}

/// A text with every character written as [`escape`] says.
pub open spec fn escaped(s: Seq<char>) -> Seq<char>
    decreases s.len(),
{
    if s.len() == 0 {
        seq![]
    } else {
        escaped(s.drop_last()) + escape(s.last())
    }
}

/// The single-quoted script literal of a text.
pub open spec fn literal(s: Seq<char>) -> Seq<char> {
    seq!['\''] + escaped(s) + seq!['\'']
}

fn push_escaped(out: &mut String, c: char)
    ensures
        final(out)@ == old(out)@ + escape(c),
{
    if c == '\\' {
        out.push('\\');
        out.push('\\');
    } else if c == '\'' {
        out.push('\\');
        out.push('\'');
    } else if c == '\n' {
        out.push('\\');
        out.push('n');
    } else if c == '\r' {
        out.push('\\');
        out.push('r');
    } else if c == '\u{2028}' {
        proof {
            reveal_strlit("\\u2028");
        }
        out.append("\\u2028");
    } else if c == '\u{2029}' {
        proof {
            reveal_strlit("\\u2029");
        }
        out.append("\\u2029");
    } else {
        out.push(c);
    }
    assert(out@ =~= old(out)@ + escape(c));
}

/// Writes a text as a single-quoted script literal.
pub fn js_string_literal(s: &str) -> (out: String)
    ensures
        out@ == literal(s@),
{
    let mut out: String = String::new();
    out.push('\'');
    assert(out@ =~= seq!['\''] + escaped(s@.take(0)));
    for c in it: s.chars()
        invariant
            it.seq() == s@,
            out@ == seq!['\''] + escaped(s@.take(it.index())),
    {
        push_escaped(&mut out, c);
        assert(s@.take(it.index() + 1).drop_last() =~= s@.take(it.index()));
        assert(out@ =~= seq!['\''] + escaped(s@.take(it.index() + 1)));
    }
    assert(s@.take(s@.len() as int) =~= s@);
    out.push('\'');
    assert(out@ =~= literal(s@));
    out
}

/// The uppercase mapping of a character.
pub uninterp spec fn char_uppercase(c: char) -> Seq<char>;

/// The uppercase form of an ASCII character: another letter for a lowercase letter, else the
/// character itself.
pub open spec fn ascii_uppercase(c: char) -> char {
    if 'a' <= c <= 'z' {
        ((c as int) - 32) as char
    } else {
        c
    }
}

/// Calls `char::to_uppercase` and collects the characters that it yields. The claim: the
/// characters depend on `c` alone, there is at least one, an ASCII character maps to its
/// uppercase form, and no character but the underscore maps to one, as the tables of the Unicode
/// Character Database have it, by which the function goes. Left unsaid is what else the other
/// characters map to.
#[verifier::external_body]
fn uppercase_of(c: char) -> (upper: Vec<char>)
    ensures
        upper@ == char_uppercase(c),
        upper@.len() >= 1,
        (c as int) < 128 ==> upper@ == seq![ascii_uppercase(c)],
        c != '_' ==> !upper@.contains('_'),
{
    c.to_uppercase().collect()
}

/// What the character at place `i` of a snake-case name gives to the camel-case name:
/// nothing if it is an underscore, its uppercase mapping if it follows one, else itself.
pub open spec fn camel_piece(s: Seq<char>, i: int) -> Seq<char> {
    if s[i] == '_' {
        seq![]
    } else if i > 0 && s[i - 1] == '_' {
        char_uppercase(s[i])
    } else {
        seq![s[i]]
    }
}

/// The camel-case form of a snake-case name: the pieces of its characters in order.
pub open spec fn camel(s: Seq<char>) -> Seq<char>
    decreases s.len(),
{
    if s.len() == 0 {
        seq![]
    } else {
        camel(s.drop_last()) + camel_piece(s, s.len() - 1)
    }
}

/// What is known of the uppercase mapping of the character at place `i` of a name, if the
/// camel-case name needs it: it holds no underscore, and is the ASCII uppercase form of an ASCII
/// character.
pub open spec fn maps_at(s: Seq<char>, i: int) -> bool {
    i > 0 && s[i - 1] == '_' && s[i] != '_' ==> {
        &&& !char_uppercase(s[i]).contains('_')
        &&& (s[i] as int) < 128 ==> char_uppercase(s[i]) == seq![ascii_uppercase(s[i])]
    }
}

/// Whether [`maps_at`] holds at every place of a name.
pub open spec fn name_maps(s: Seq<char>) -> bool {
    forall|i: int| 0 <= i < s.len() ==> #[trigger] maps_at(s, i)
}

proof fn lemma_no_underscores(s: Seq<char>)
    requires
        name_maps(s),
    ensures
        !camel(s).contains('_'),
    decreases s.len(),
{
    if s.len() > 0 {
        let rest = s.drop_last();
        let piece = camel_piece(s, s.len() - 1);
        assert forall|i: int| 0 <= i < rest.len() implies #[trigger] maps_at(rest, i) by {
            assert(maps_at(s, i));
        }
        lemma_no_underscores(rest);
        assert(maps_at(s, s.len() - 1));
        assert(!piece.contains('_'));
        if camel(s).contains('_') {
            let k = choose|k: int| 0 <= k < camel(s).len() && camel(s)[k] == '_';
            if k < camel(rest).len() {
                assert(camel(rest)[k] == '_');
            } else {
                assert(piece[k - camel(rest).len()] == '_');
            }
        }
    }
}

/// Turns a snake-case name into camel case. The camel-case form holds no underscore, so that it
/// is its own camel-case form, and it is the name itself exactly where that holds none.
pub fn snake_to_camel(s: &str) -> (out: String)
    ensures
        out@ == camel(s@),
        name_maps(s@),
        !out@.contains('_'),
        camel(out@) == out@,
        out@ == s@ <==> !s@.contains('_'),
{
    let mut out: String = String::new();
    let mut up: bool = false;
    assert(s@.take(0) =~= seq![]);
    for c in it: s.chars()
        invariant
            it.seq() == s@,
            up == (it.index() > 0 && s@[it.index() - 1] == '_'),
            out@ == camel(s@.take(it.index())),
            forall|i: int| 0 <= i < it.index() ==> #[trigger] maps_at(s@, i),
    {
        let ghost i = it.index();
        assert(s@.take(i + 1).drop_last() =~= s@.take(i));
        assert(s@.take(i + 1)[i] == c);
        if c == '_' {
            up = true;
        } else if up {
            let upper: Vec<char> = uppercase_of(c);
            push_all(&mut out, &upper);
            up = false;
        } else {
            out.push(c);
        }
        assert(camel_piece(s@.take(i + 1), i) == camel_piece(s@, i));
        assert(out@ =~= camel(s@.take(i + 1)));
        assert(maps_at(s@, i));
    }
    assert(s@.take(s@.len() as int) =~= s@);
    proof {
        lemma_no_underscores(s@);
        law_camel_keeps_plain_names(out@);
        if !s@.contains('_') {
            law_camel_keeps_plain_names(s@);
        }
    }
    out
}

fn push_all(out: &mut String, chars: &Vec<char>)
    ensures
        final(out)@ == old(out)@ + chars@,
{
    let mut i: usize = 0;
    while i < chars.len()
        invariant
            i <= chars@.len(),
            out@ == old(out)@ + chars@.take(i as int),
        decreases chars@.len() - i,
    {
        out.push(chars[i]);
        i = i + 1;
        assert(out@ =~= old(out)@ + chars@.take(i as int));
    }
    assert(chars@.take(i as int) =~= chars@);
}

/// Whether a script identifier may begin with `c`.
pub open spec fn ident_start(c: char) -> bool {
    'a' <= c <= 'z' || 'A' <= c <= 'Z' || c == '_' || c == '$'
}

/// Whether `c` may stand in a script identifier after its first character.
pub open spec fn ident_part(c: char) -> bool {
    ident_start(c) || '0' <= c <= '9'
}

/// Whether a text is an identifier of ASCII letters, digits, `_` and `$` that does not
/// begin with a digit.
pub open spec fn is_ident(s: Seq<char>) -> bool {
    &&& s.len() > 0
    &&& ident_start(s[0])
    &&& forall|i: int| 1 <= i < s.len() ==> ident_part(#[trigger] s[i])
}

fn starts_ident(c: char) -> (start: bool)
    ensures
        start == ident_start(c),
{
    ('a' <= c && c <= 'z') || ('A' <= c && c <= 'Z') || c == '_' || c == '$'
}

/// Whether a text can be written as a script identifier.
pub fn is_js_ident_start(s: &str) -> (ident: bool)
    ensures
        ident == is_ident(s@),
{
    let chars: Vec<char> = chars_of(s);
    if chars.len() == 0 || !starts_ident(chars[0]) {
        return false;
    }
    let mut i: usize = 1;
    while i < chars.len()
        invariant
            chars@ == s@,
            1 <= i <= chars@.len(),
            forall|j: int| 1 <= j < i ==> ident_part(#[trigger] s@[j]),
        decreases chars@.len() - i,
    {
        let c: char = chars[i];
        if !(starts_ident(c) || ('0' <= c && c <= '9')) {
            assert(!ident_part(s@[i as int]));
            return false;
        }
        i = i + 1;
    }
    true
}

} // verus!
