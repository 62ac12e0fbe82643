//! JSON decoding of the challenge batch and encoding of the solutions,
//! through `serde_json`.

use vstd::prelude::*;

verus! {

/// `serde_json::Error`, the error of both JSON directions.
#[verifier::external_type_specification]
#[verifier::external_body]
pub struct ExError(serde_json::Error);

/// The challenges a JSON document encodes: `Some` sequence of strings
/// exactly when the text is a JSON array of strings, `None` otherwise.
/// The outcome depends on the text alone.
pub uninterp spec fn parsed_challenges(text: Seq<char>) -> Option<Seq<Seq<char>>>;

/// Relies on `serde_json::from_str::<Vec<String>>`: parses a JSON array
/// of strings and fails exactly when the text is not one.
#[verifier::external_body]
pub(crate) fn parse_challenges(text: &str) -> (r: Result<Vec<String>, serde_json::Error>)
    ensures
        r is Ok <==> parsed_challenges(text@) is Some,
        r matches Ok(v) ==> parsed_challenges(text@) == Some(v.deep_view()),
{
    serde_json::from_str::<Vec<String>>(text)
}

/// The decimal rendering of `n` as characters, shortest form, no
/// leading zeros.
pub open spec fn decimal_chars(n: nat) -> Seq<char>
    decreases n,
{
    if n < 10 {
        seq![digit_char(n)]
    } else {
        decimal_chars(n / 10).push(digit_char(n % 10))
    }
}

/// The character for one decimal digit.
pub open spec fn digit_char(d: nat) -> char {
    if d == 0 {
        '0'
    } else if d == 1 {
        '1'
    } else if d == 2 {
        '2'
    } else if d == 3 {
        '3'
    } else if d == 4 {
        '4'
    } else if d == 5 {
        '5'
    } else if d == 6 {
        '6'
    } else if d == 7 {
        '7'
    } else if d == 8 {
        '8'
    } else {
        '9'
    }
}

/// The numbers of a JSON array rendering, comma-separated, without
/// whitespace.
pub open spec fn json_items(v: Seq<u64>) -> Seq<char>
    decreases v.len(),
{
    if v.len() == 0 {
        Seq::empty()
    } else if v.len() == 1 {
        decimal_chars(v[0] as nat)
    } else {
        decimal_chars(v[0] as nat) + seq![','] + json_items(v.drop_first())
    }
}

/// The JSON rendering of a sequence of unsigned integers: decimal
/// numbers between brackets, comma-separated, without whitespace.
pub open spec fn json_render(v: Seq<u64>) -> Seq<char> {
    seq!['['] + json_items(v) + seq![']']
}

/// Relies on `serde_json::to_string::<Vec<u64>>`: renders the numbers in
/// compact form, decimal between brackets, comma-separated, with no
/// whitespace; serialising a vector of unsigned integers cannot fail.
#[verifier::external_body]
pub(crate) fn encode_solutions(v: &Vec<u64>) -> (r: Result<String, serde_json::Error>)
    ensures
        r is Ok,
        r matches Ok(s) ==> s@ == json_render(v@),
{
    serde_json::to_string(v)
}

} // verus!
