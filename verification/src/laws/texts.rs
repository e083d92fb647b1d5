//! Laws of texts: their order, their beginnings, and numbers written in them.

use vstd::prelude::*;

use crate::text::begins_with;
use crate::text::decimal;
use crate::text::differs_first_at;
use crate::text::lemma_precedes_asymmetric;
use crate::text::lemma_precedes_total;
use crate::text::lemma_precedes_transitive;
use crate::text::precedes;

verus! {

/// Texts are ordered as in a dictionary: a text comes before its continuations, and of two texts
/// that begin alike the one with the smaller character at the first difference comes first,
/// whatever follows.
pub proof fn law_order_is_that_of_a_dictionary(
    start: Seq<char>,
    a: char,
    b: char,
    x: Seq<char>,
    y: Seq<char>,
)
    requires
        (a as int) < (b as int),
    ensures
        precedes(start, start + seq![a] + x),
        precedes(start + seq![a] + x, start + seq![b] + y),
{
    let s = start + seq![a] + x;
    let t = start + seq![b] + y;
    let n = start.len() as int;
    assert(start.take(n) =~= s.take(n));
    assert(differs_first_at(start, s, n));
    assert(s.take(n) =~= t.take(n));
    assert(differs_first_at(s, t, n));
}

/// The order of texts is total and strict.
pub proof fn law_order_is_total(a: Seq<char>, b: Seq<char>, c: Seq<char>)
    ensures
        a == b || precedes(a, b) || precedes(b, a),
        precedes(a, b) ==> a != b && !precedes(b, a),
        precedes(a, b) && precedes(b, c) ==> precedes(a, c),
{
    lemma_precedes_total(a, b);
    if precedes(a, b) {
        lemma_precedes_asymmetric(a, b);
        if precedes(b, c) {
            lemma_precedes_transitive(a, b, c);
        }
    }
}

/// A text begins with another exactly if it is that text and something after it.
pub proof fn law_beginnings(prefix: Seq<char>, rest: Seq<char>, text: Seq<char>)
    ensures
        begins_with(prefix + rest, prefix),
        begins_with(text, prefix) ==> text == prefix + text.skip(prefix.len() as int),
{
    assert((prefix + rest).take(prefix.len() as int) =~= prefix);
    if begins_with(text, prefix) {
        assert(text =~= text.take(prefix.len() as int) + text.skip(prefix.len() as int));
    }
}

/// The number that a text of decimal digits denotes.
pub open spec fn number_of(text: Seq<char>) -> int
    decreases text.len(),
{
    if text.len() == 0 {
        0
    } else {
        number_of(text.drop_last()) * 10 + (text.last() as int - '0' as int)
    }
}

/// A number is written in decimal digits that denote it, and with no zero in front.
pub proof fn law_numbers_read_back(n: nat)
    ensures
        number_of(decimal(n)) == n,
        decimal(n).len() > 0,
        forall|i: int| 0 <= i < decimal(n).len() ==> '0' <= #[trigger] decimal(n)[i] <= '9',
        n > 0 ==> decimal(n)[0] != '0',
    decreases n,
{
    let text = decimal(n);
    if n < 10 {
        assert(text.drop_last() =~= seq![]);
        assert(number_of(text.drop_last()) == 0);
        assert(number_of(text) == text.last() as int - '0' as int);
    } else {
        law_numbers_read_back(n / 10);
        assert(text.drop_last() =~= decimal(n / 10));
        assert(text[0] == decimal(n / 10)[0]);
        assert(text.last() as int - '0' as int == n % 10);
        assert(number_of(text) == number_of(text.drop_last()) * 10 + n % 10);
    }
}

} // verus!
