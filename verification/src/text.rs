//! Text as sequences of characters: comparison, prefixes and decimal numbers.

use vstd::prelude::*;

verus! {

/// `String::push` appends one character to the end of the string.
pub assume_specification[ String::push ](string: &mut String, c: char)
    ensures
        final(string)@ == old(string)@.push(c),
;

/// The characters of a text, in order.
pub fn chars_of(s: &str) -> (chars: Vec<char>)
    ensures
        chars@ == s@,
{
    let mut chars: Vec<char> = Vec::new();
    for c in it: s.chars()
        invariant
            chars@ == s@.take(it.index()),
            it.seq() == s@,
    {
        chars.push(c);
    }
    chars
}

/// Whether `a` comes strictly before `b` in the order of their characters: at the first
/// place where the two differ the character of `a` is the smaller one, or `a` ends there.
pub open spec fn precedes(a: Seq<char>, b: Seq<char>) -> bool {
    exists|i: int| #[trigger] differs_first_at(a, b, i)
}

/// `a` and `b` agree before place `i`, and at `i` the text `a` has ended or is smaller.
pub open spec fn differs_first_at(a: Seq<char>, b: Seq<char>, i: int) -> bool {
    &&& 0 <= i <= a.len()
    &&& i < b.len()
    &&& a.take(i) == b.take(i)
    &&& i < a.len() ==> (a[i] as int) < (b[i] as int)
}

/// No text precedes itself, and of two texts at most one precedes the other.
pub proof fn lemma_precedes_asymmetric(a: Seq<char>, b: Seq<char>)
    requires
        precedes(a, b),
    ensures
        a != b,
        !precedes(b, a),
{
    let i = choose|i: int| #[trigger] differs_first_at(a, b, i);
    if a == b {
        assert(a[i] == b[i]);
    }
    if precedes(b, a) {
        let j = choose|j: int| #[trigger] differs_first_at(b, a, j);
        if i < j {
            assert(b.take(j)[i] == a.take(j)[i]);
        } else if j < i {
            assert(b.take(i)[j] == a.take(i)[j]);
        }
    }
}

/// The order of texts is transitive.
pub proof fn lemma_precedes_transitive(a: Seq<char>, b: Seq<char>, c: Seq<char>)
    requires
        precedes(a, b),
        precedes(b, c),
    ensures
        precedes(a, c),
{
    let i = choose|i: int| #[trigger] differs_first_at(a, b, i);
    let j = choose|j: int| #[trigger] differs_first_at(b, c, j);
    let k = if i <= j { i } else { j };
    assert(a.take(k) =~= a.take(i).take(k));
    assert(b.take(k) =~= b.take(i).take(k));
    assert(b.take(k) =~= b.take(j).take(k));
    assert(c.take(k) =~= c.take(j).take(k));
    if i < j {
        assert(b.take(j)[i] == c.take(j)[i]);
    } else if j < i {
        assert(b.take(i)[j] == a.take(i)[j]);
    }
    assert(differs_first_at(a, c, k));
}

/// Of two different texts one precedes the other.
pub proof fn lemma_precedes_total(a: Seq<char>, b: Seq<char>)
    ensures
        a == b || precedes(a, b) || precedes(b, a),
{
    assert(a.take(0) =~= b.take(0));
    lemma_first_difference(a, b, 0);
}

proof fn lemma_first_difference(a: Seq<char>, b: Seq<char>, i: int)
    requires
        0 <= i <= a.len(),
        i <= b.len(),
        a.take(i) == b.take(i),
    ensures
        a == b || precedes(a, b) || precedes(b, a),
    decreases a.len() - i,
{
    if i == a.len() && i == b.len() {
        assert(a =~= a.take(i));
        assert(b =~= b.take(i));
    } else if i == a.len() {
        assert(differs_first_at(a, b, i));
    } else if i == b.len() {
        assert(differs_first_at(b, a, i));
    } else if (a[i] as int) < (b[i] as int) {
        assert(differs_first_at(a, b, i));
    } else if (b[i] as int) < (a[i] as int) {
        assert(differs_first_at(b, a, i));
    } else {
        assert(a.take(i + 1) =~= a.take(i).push(a[i]));
        assert(b.take(i + 1) =~= b.take(i).push(b[i]));
        lemma_first_difference(a, b, i + 1);
    }
}

/// How two texts stand to each other in the order of [`precedes`].
#[derive(Debug, Clone, Copy, PartialEq, Eq, Structural)]
pub enum Place {
    Before,
    Same,
    After,
}

/// Compares two texts by their characters.
pub fn place_of(a: &str, b: &str) -> (place: Place)
    ensures
        match place {
            Place::Before => precedes(a@, b@),
            Place::Same => a@ == b@,
            Place::After => precedes(b@, a@),
        },
{
    let xs: Vec<char> = chars_of(a);
    let ys: Vec<char> = chars_of(b);
    let mut i: usize = 0;
    while i < xs.len() && i < ys.len()
        invariant
            xs@ == a@,
            ys@ == b@,
            i <= xs@.len(),
            i <= ys@.len(),
            a@.take(i as int) == b@.take(i as int),
        decreases xs@.len() - i,
    {
        let x: char = xs[i];
        let y: char = ys[i];
        if x < y {
            assert(differs_first_at(a@, b@, i as int));
            return Place::Before;
        }
        if y < x {
            assert(differs_first_at(b@, a@, i as int));
            return Place::After;
        }
        assert(a@.take(i + 1) =~= a@.take(i as int).push(a@[i as int]));
        assert(b@.take(i + 1) =~= b@.take(i as int).push(b@[i as int]));
        i = i + 1;
    }
    if i < ys.len() {
        assert(differs_first_at(a@, b@, i as int));
        Place::Before
    } else if i < xs.len() {
        assert(differs_first_at(b@, a@, i as int));
        Place::After
    } else {
        assert(a@ =~= a@.take(i as int));
        assert(b@ =~= b@.take(i as int));
        Place::Same
    }
}

/// Whether two texts are equal.
pub fn same_text(a: &str, b: &str) -> (same: bool)
    ensures
        same == (a@ == b@),
{
    match place_of(a, b) {
        Place::Same => true,
        Place::Before => {
            proof {
                lemma_precedes_asymmetric(a@, b@);
            }
            false
        },
        Place::After => {
            proof {
                lemma_precedes_asymmetric(b@, a@);
            }
            false
        },
    }
}

/// Whether `text` begins with `prefix`.
pub open spec fn begins_with(text: Seq<char>, prefix: Seq<char>) -> bool {
    prefix.len() <= text.len() && text.take(prefix.len() as int) == prefix
}

/// Whether `text` begins with `prefix`.
pub fn has_prefix(text: &str, prefix: &str) -> (found: bool)
    ensures
        found == begins_with(text@, prefix@),
{
    let xs: Vec<char> = chars_of(text);
    let ys: Vec<char> = chars_of(prefix);
    if xs.len() < ys.len() {
        return false;
    }
    let mut i: usize = 0;
    while i < ys.len()
        invariant
            xs@ == text@,
            ys@ == prefix@,
            ys@.len() <= xs@.len(),
            i <= ys@.len(),
            forall|j: int| 0 <= j < i ==> xs@[j] == ys@[j],
        decreases ys@.len() - i,
    {
        if xs[i] != ys[i] {
            assert(text@.take(prefix@.len() as int)[i as int] != prefix@[i as int]);
            return false;
        }
        i = i + 1;
    }
    assert(text@.take(prefix@.len() as int) =~= prefix@);
    true
}

/// The decimal digit for a number below ten.
pub open spec fn digit(d: nat) -> char {
    (('0' as int) + d) as char
}

/// A number in decimal notation, without leading zeros.
pub open spec fn decimal(n: nat) -> Seq<char>
    decreases n,
{
    if n < 10 {
        seq![digit(n)]
    } else {
        decimal(n / 10).push(digit(n % 10))
    }
}

fn digit_char(d: usize) -> (c: char)
    requires
        d < 10,
    ensures
        c == digit(d as nat),
{
    let code: u8 = 48 + (d as u8);
    code as char
}

/// Appends a number in decimal notation.
pub fn push_decimal(out: &mut String, n: usize)
    ensures
        final(out)@ == old(out)@ + decimal(n as nat),
    decreases n,
{
    if n >= 10 {
        push_decimal(out, n / 10);
    }
    out.push(digit_char(n % 10));
    assert(out@ =~= old(out)@ + decimal(n as nat));
}

} // verus!
