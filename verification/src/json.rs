//! Values written as JSON.

use vstd::prelude::*;

use crate::decimal::{integer_text, signed_decimal};
use crate::digest::hex_char;
use crate::pieces::{join, joined};
use crate::text::{lemma_texts_push, texts};

verus! {

/// A character as it stands in a JSON string literal: quotes, backslashes and the control characters
/// of ASCII below the space are escaped, and everything else stands as it is.
pub open spec fn json_char(c: char) -> Seq<char> {
    let n = c as int;
    if c == '"' || c == '\\' {
        seq!['\\', c]
    } else if n == 8 {
        seq!['\\', 'b']
    } else if n == 9 {
        seq!['\\', 't']
    } else if n == 10 {
        seq!['\\', 'n']
    } else if n == 12 {
        seq!['\\', 'f']
    } else if n == 13 {
        seq!['\\', 'r']
    } else if n < 32 {
        seq!['\\', 'u', '0', '0', hex_char(n / 16), hex_char(n % 16)]
    } else {
        seq![c]
    }
}

pub open spec fn json_chars(value: Seq<char>) -> Seq<char>
    decreases value.len(),
{
    if value.len() == 0 {
        value
    } else {
        json_chars(value.drop_last()) + json_char(value.last())
    }
}

/// The JSON string literal of a text: quoted and escaped.
pub open spec fn json_string(value: Seq<char>) -> Seq<char> {
    "\""@ + json_chars(value) + "\""@
}

/// `serde_json::to_string` on a text: its JSON string literal. Serialising a text into memory does
/// not fail.
#[verifier::external_body]
pub(crate) fn json_text(value: &str) -> (literal: String)
    ensures
        literal@ == json_string(value@),
{
    serde_json::to_string(value).unwrap()
}

/// An optional number: the number, or `null`.
pub open spec fn json_optional(value: Option<i64>) -> Seq<char> {
    match value {
        Some(n) => signed_decimal(n as int),
        None => "null"@,
    }
}

pub fn optional_text(value: Option<i64>) -> (text: String)
    ensures
        text@ == json_optional(value),
{
    match value {
        Some(n) => integer_text(n),
        None => "null".to_owned(),
    }
}

/// An array of values that are JSON already.
pub open spec fn json_array(values: Seq<Seq<char>>) -> Seq<char> {
    "["@ + joined(values, ","@) + "]"@
}

pub fn array_text(values: &Vec<String>) -> (text: String)
    ensures
        text@ == json_array(texts(values@)),
{
    "[".to_owned().concat(join(values, ",").as_str()).concat("]")
}

/// The numbers in decimal.
pub open spec fn number_texts(values: Seq<i64>) -> Seq<Seq<char>> {
    values.map_values(|n: i64| signed_decimal(n as int))
}

pub fn numbers_text(values: &Vec<i64>) -> (text: String)
    ensures
        text@ == json_array(number_texts(values@)),
{
    let mut written: Vec<String> = Vec::new();
    let mut i: usize = 0;
    assert(texts(written@) =~= number_texts(values@).take(0));
    while i < values.len()
        invariant
            i <= values@.len(),
            texts(written@) == number_texts(values@).take(i as int),
        decreases values@.len() - i,
    {
        let text = integer_text(values[i]);
        proof {
            lemma_texts_push(written@, text);
        }
        written.push(text);
        i = i + 1;
        assert(texts(written@) =~= number_texts(values@).take(i as int));
    }
    assert(number_texts(values@).take(i as int) =~= number_texts(values@));
    array_text(&written)
}

/// No character below the space and no quote stands bare in a string of JSON: they are escaped, as
/// backslashes are, and everything else stands as it is.
pub proof fn strings_hold_no_bare_quotes(c: char)
    ensures
        c == '"' ==> json_char(c) == seq!['\\', '"'],
        c == '\\' ==> json_char(c) == seq!['\\', '\\'],
        c == '\n' ==> json_char(c) == seq!['\\', 'n'],
        c == '\r' ==> json_char(c) == seq!['\\', 'r'],
        c == '\t' ==> json_char(c) == seq!['\\', 't'],
        c == '\x08' ==> json_char(c) == seq!['\\', 'b'],
        c == '\x0c' ==> json_char(c) == seq!['\\', 'f'],
        c >= ' ' && c != '"' && c != '\\' ==> json_char(c) == seq![c],
        c < ' ' ==> json_char(c).len() >= 2 && json_char(c)[0] == '\\',
        c < ' ' && c != '\n' && c != '\r' && c != '\t' && c != '\x08' && c != '\x0c' ==> json_char(
            c,
        ) == seq!['\\', 'u', '0', '0', hex_char(c as int / 16), hex_char(c as int % 16)],
{
}

/// A string is written character by character between quotes, a list value by value between square
/// brackets with commas between them, and a missing number as `null`.
pub proof fn values_are_written_in_order(
    text: Seq<char>,
    c: char,
    values: Seq<Seq<char>>,
    value: Seq<char>,
    n: i64,
)
    ensures
        json_string(Seq::empty()) == seq!['"', '"'],
        json_string(text) == seq!['"'] + json_chars(text) + seq!['"'],
        json_chars(text.push(c)) == json_chars(text) + json_char(c),
        json_array(Seq::empty()) == seq!['[', ']'],
        json_array(seq![value]) == seq!['['] + value + seq![']'],
        values.len() > 0 ==> json_array(values.push(value)) == seq!['['] + joined(values, seq![','])
            + seq![','] + value + seq![']'],
        json_optional(None) == seq!['n', 'u', 'l', 'l'],
        json_optional(Some(n)) == signed_decimal(n as int),
{
    reveal_strlit("\"");
    reveal_strlit("[");
    reveal_strlit("]");
    reveal_strlit(",");
    reveal_strlit("null");
    assert("\""@ =~= seq!['"']);
    assert("["@ =~= seq!['[']);
    assert("]"@ =~= seq![']']);
    assert(","@ =~= seq![',']);
    assert("null"@ =~= seq!['n', 'u', 'l', 'l']);
    assert(json_string(Seq::empty()) =~= seq!['"', '"']);
    assert(text.push(c).drop_last() =~= text);
    assert(json_array(Seq::empty()) =~= seq!['[', ']']);
    assert(values.push(value).drop_last() =~= values);
    if values.len() > 0 {
        assert(joined(values.push(value), ","@) == joined(values, ","@) + ","@ + value);
        assert(json_array(values.push(value)) =~= seq!['['] + joined(values, seq![',']) + seq![',']
            + value + seq![']']);
    }
}

} // verus!
