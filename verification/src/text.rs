//! The text of error messages: strings built piece by piece, and decimal numerals.

use vstd::prelude::*;

verus! {

/// `String::push`: appends the character `c` to `s`.
#[verifier::external_body]
fn string_push(s: &mut String, c: char)
    ensures
        final(s)@ == old(s)@.push(c),
{
    s.push(c)
}

/// The character of a decimal digit.
pub open spec fn digit_char(d: nat) -> char {
    if d == 0 {
        '0'
    } else if d == 1 {
        '1'
    } else if d == 2 {
        '2'
    } else if d == 3 {
        '3'
    } else if d == 4 {
        '4'
    } else if d == 5 {
        '5'
    } else if d == 6 {
        '6'
    } else if d == 7 {
        '7'
    } else if d == 8 {
        '8'
    } else {
        '9'
    }
}

/// The decimal numeral of `n`, without leading zeros, as `format!("{}", n)` writes it.
pub open spec fn decimal(n: nat) -> Seq<char>
    decreases n,
{
    if n < 10 {
        seq![digit_char(n)]
    } else {
        decimal(n / 10).push(digit_char(n % 10))
    }
}

/// The text of a message that reports a count of bytes: `"<prefix>: expected <expected>, got
/// <got>"`.
pub open spec fn count_message(prefix: Seq<char>, expected: nat, got: nat) -> Seq<char> {
    prefix + ": expected "@ + decimal(expected) + ", got "@ + decimal(got)
}

/// The character of the decimal digit `d`.
fn digit(d: u128) -> (c: char)
    requires
        d < 10,
    ensures
        c == digit_char(d as nat),
{
    if d == 0 {
        '0'
    } else if d == 1 {
        '1'
    } else if d == 2 {
        '2'
    } else if d == 3 {
        '3'
    } else if d == 4 {
        '4'
    } else if d == 5 {
        '5'
    } else if d == 6 {
        '6'
    } else if d == 7 {
        '7'
    } else if d == 8 {
        '8'
    } else {
        '9'
    }
}

/// Appends the decimal numeral of `n` to `s`.
pub fn push_decimal(s: &mut String, n: u128)
    ensures
        final(s)@ == old(s)@ + decimal(n as nat),
    decreases n,
{
    if n >= 10 {
        push_decimal(s, n / 10);
    }
    string_push(s, digit(n % 10));
    assert(s@ =~= old(s)@ + decimal(n as nat));
}

/// `text` followed by the decimal numeral of `n`.
pub fn text_with_number(text: &str, n: u128) -> (r: String)
    ensures
        r@ == text@ + decimal(n as nat),
{
    let mut s = text.to_string();
    push_decimal(&mut s, n);
    s
}

/// The message `"<prefix>: expected <expected>, got <got>"`.
pub fn count_message_text(prefix: &str, expected: usize, got: usize) -> (r: String)
    ensures
        r@ == count_message(prefix@, expected as nat, got as nat),
{
    let mut s = prefix.to_string();
    s.append(": expected ");
    push_decimal(&mut s, expected as u128);
    s.append(", got ");
    push_decimal(&mut s, got as u128);
    assert(s@ =~= count_message(prefix@, expected as nat, got as nat));
    s
}

} // verus!
