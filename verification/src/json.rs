//! JSON text of plain values.

use vstd::prelude::*;
use crate::text;

verus! {

/// The error of the JSON serializer.
#[verifier::external_type_specification]
#[verifier::external_body]
pub struct JsonError(serde_json::Error);

/// How a character stands in a JSON string.
pub open spec fn json_char(c: char) -> Seq<char> {
    if c == '"' {
        seq!['\\', '"']
    } else if c == '\\' {
        seq!['\\', '\\']
    } else if c == '\u{8}' {
        seq!['\\', 'b']
    } else if c == '\t' {
        seq!['\\', 't']
    } else if c == '\n' {
        seq!['\\', 'n']
    } else if c == '\u{c}' {
        seq!['\\', 'f']
    } else if c == '\r' {
        seq!['\\', 'r']
    } else if (c as nat) < 32 {
        seq!['\\', 'u', '0', '0'] + text::hex_text(c as nat, 2)
    } else {
        seq![c]
    }
}

/// The JSON string of a text.
pub open spec fn json_text(s: Seq<char>) -> Seq<char> {
    seq!['"'] + text::mapped(s, |c: char| json_char(c)) + seq!['"']
}

/// Calls `serde_json::to_string` on a string slice, which puts it between
/// double quotes, escapes quotes, backslashes and control characters, and does
/// not fail.
#[verifier::external_body]
pub(crate) fn json_string(s: &str) -> (r: Result<String, serde_json::Error>)
    ensures
        r is Ok,
        r->Ok_0@ == json_text(s@),
{
    serde_json::to_string(s)
}

/// The JSON string of a text.
pub fn json_quoted(s: &str) -> (r: String)
    ensures
        r@ == json_text(s@),
{
    match json_string(s) {
        Ok(t) => t,
        Err(_) => String::new(),
    }
}

/// No character in the JSON form of a character is a control character, and a quote or
/// a backslash stands in it only behind a backslash.
pub proof fn law_json_escapes_what_would_end_the_text(c: char, i: int)
    requires
        0 <= i < json_char(c).len(),
    ensures
        json_char(c)[i] as nat >= 32,
        json_char(c)[i] == '"' ==> i == 1 && json_char(c)[0] == '\\',
        json_char(c).len() == 1 ==> json_char(c)[0] == c && c != '"' && c != '\\',
        json_char(c).len() > 1 ==> json_char(c)[0] == '\\',
{
    if (c as nat) < 32 {
        text::lemma_hex_len(c as nat, 2);
        lemma_two_hex_digits(c as nat);
    }
}

proof fn lemma_two_hex_digits(n: nat)
    requires
        n < 32,
    ensures
        text::hex_text(n, 2) == seq![text::hex_digit(n / 16), text::hex_digit(n % 16)],
        text::hex_digit(n / 16) as nat >= 48,
        text::hex_digit(n % 16) as nat >= 48,
{
    reveal_with_fuel(text::hex_text, 3);
    assert(n / 16 % 16 == n / 16);
    assert(text::hex_text(n, 2) =~= seq![text::hex_digit(n / 16), text::hex_digit(n % 16)]);
}

/// Different characters have different JSON forms.
pub proof fn law_json_tells_characters_apart(a: char, b: char)
    ensures
        json_char(a) == json_char(b) ==> a == b,
{
    if json_char(a) == json_char(b) {
        let x = json_char(a);
        let y = json_char(b);
        text::lemma_hex_len(a as nat, 2);
        text::lemma_hex_len(b as nat, 2);
        assert(x.len() == y.len() && x[0] == y[0] && (x.len() > 1 ==> x[1] == y[1]));
        if x.len() > 2 {
            assert(x.skip(4) =~= text::hex_text(a as nat, 2));
            assert(y.skip(4) =~= text::hex_text(b as nat, 2));
            reveal_with_fuel(text::hex_range, 3);
            text::lemma_hex_injective(a as nat, b as nat, 2);
        }
    }
}

} // verus!
