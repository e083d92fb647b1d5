//! What the library has from the script engine, `boa_engine`.

use boa_engine::JsError;
use boa_engine::JsNativeError;
use boa_engine::JsString;
use vstd::prelude::*;

verus! {

/// Whether a code unit is the first half of a surrogate pair.
pub open spec fn is_high(unit: u16) -> bool {
    0xd800 <= unit <= 0xdbff
}

/// Whether a code unit is the second half of a surrogate pair.
pub open spec fn is_low(unit: u16) -> bool {
    0xdc00 <= unit <= 0xdfff
}

/// The character that a surrogate pair denotes.
pub open spec fn pair_char(high: u16, low: u16) -> char {
    (0x10000 + (high - 0xd800) * 0x400 + (low - 0xdc00)) as char
}

/// The upper-case hexadecimal digit of a number below 16.
pub open spec fn hex_upper(n: int) -> char {
    if n < 10 {
        ('0' as int + n) as char
    } else {
        ('A' as int + n - 10) as char
    }
}

/// How a surrogate without its other half is written: `\u` and four hexadecimal digits.
pub open spec fn unit_escape(unit: u16) -> Seq<char> {
    let n = unit as int;
    seq![
        '\\',
        'u',
        hex_upper(n / 4096),
        hex_upper(n / 256 % 16),
        hex_upper(n / 16 % 16),
        hex_upper(n % 16),
    ]
}

/// The text of a script string, given its UTF-16 code units. A surrogate without its other half
/// is written as an escape.
pub open spec fn js_escaped(units: Seq<u16>) -> Seq<char>
    decreases units.len(),
{
    if units.len() == 0 {
        seq![]
    } else if units.len() > 1 && is_high(units[0]) && is_low(units[1]) {
        seq![pair_char(units[0], units[1])] + js_escaped(units.skip(2))
    } else if is_high(units[0]) || is_low(units[0]) {
        unit_escape(units[0]) + js_escaped(units.skip(1))
    } else {
        seq![units[0] as char] + js_escaped(units.skip(1))
    }
}

/// Calls `JsString::to_std_string_escaped` on the string of the code units. The claim: surrogate
/// pairs are decoded, a surrogate without its other half is written as `\u` and its number in
/// four upper-case hexadecimal digits, and any other unit is the character with its number.
#[verifier::external_body]
pub(crate) fn escaped_text(units: &[u16]) -> (text: String)
    ensures
        text@ == js_escaped(units@),
{
    JsString::from(units).to_std_string_escaped()
}

/// Whether Unicode counts a character as white space.
pub open spec fn white_space(c: char) -> bool {
    let n = c as int;
    ||| 0x09 <= n <= 0x0d
    ||| n == 0x20
    ||| n == 0x85
    ||| n == 0xa0
    ||| n == 0x1680
    ||| 0x2000 <= n <= 0x200a
    ||| n == 0x2028
    ||| n == 0x2029
    ||| n == 0x202f
    ||| n == 0x205f
    ||| n == 0x3000
}

/// A text without the white space at its beginning and its end.
pub open spec fn trimmed(text: Seq<char>) -> Seq<char>
    decreases text.len(),
{
    if text.len() > 0 && white_space(text[0]) {
        trimmed(text.drop_first())
    } else if text.len() > 0 && white_space(text.last()) {
        trimmed(text.drop_last())
    } else {
        text
    }
}

/// The text that the engine gives for a plain `Error` with a message: the message without white
/// space around it, behind `Error: `, and only `Error` where nothing is left of the message.
pub open spec fn native_error(message: Seq<char>) -> Seq<char> {
    if trimmed(message).len() == 0 {
        "Error"@
    } else {
        "Error: "@ + trimmed(message)
    }
}

/// Calls `JsError::from_native` on `JsNativeError::error` with the message, and gives the
/// `Display` text of it. The claim: the engine trims the message as `str::trim` does, which goes
/// by the Unicode property `White_Space`, and writes what is left behind `Error: `, or nothing
/// more than `Error` where nothing is left. It writes no place in the source code, as the crate is
/// built without its feature `native-backtrace`.
#[verifier::external_body]
pub(crate) fn native_error_text(message: String) -> (text: String)
    ensures
        text@ == native_error(message@),
{
    JsError::from_native(JsNativeError::error().with_message(message)).to_string()
}

} // verus!
