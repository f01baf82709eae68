//! The texts of messages.

use crate::ids::{spec_hyphenated, Id};
use vstd::prelude::*;

verus! {

/// The character of a decimal digit.
pub open spec fn digit_char(d: int) -> char {
    ((48 + d) as u8) as char
}

/// The decimal digits of a natural number, without leading zeros.
pub open spec fn spec_digits(n: nat) -> Seq<char>
    decreases n,
{
    if n < 10 {
        seq![digit_char(n as int)]
    } else {
        spec_digits(n / 10).push(digit_char((n % 10) as int))
    }
}

/// A whole number in decimal, with a minus sign where it is negative.
pub open spec fn spec_decimal(n: int) -> Seq<char> {
    if n < 0 {
        seq!['-'] + spec_digits((-n) as nat)
    } else {
        spec_digits(n as nat)
    }
}

/// Calls `to_string` on an `i32`. Trusted: the text is the number in decimal.
#[verifier::external_body]
fn decimal_text(n: i32) -> (text: String)
    ensures
        text@ == spec_decimal(n as int),
{
    n.to_string()
}

/// The message that a resource of some kind is not there for the caller.
pub open spec fn spec_not_found(kind: Seq<char>, id: Id) -> Seq<char> {
    kind + " with id "@ + spec_hyphenated(id.0) + " not found"@
}

/// The message that a receipt for a period exists.
pub open spec fn spec_receipt_exists(month: i32, year: i32) -> Seq<char> {
    "Receipt already exists for "@ + spec_decimal(month as int) + "/"@ + spec_decimal(
        year as int,
    )
}

/// Writes the message that a resource of some kind is not there.
pub fn not_found(kind: &str, id: Id) -> (message: String)
    ensures
        message@ == spec_not_found(kind@, id),
{
    let mut message: String = kind.to_owned();
    message.append(" with id ");
    message.append(id.to_text().as_str());
    message.append(" not found");
    message
}

/// Writes the message that a receipt for a period exists.
pub fn receipt_exists(month: i32, year: i32) -> (message: String)
    ensures
        message@ == spec_receipt_exists(month, year),
{
    let mut message: String = "Receipt already exists for ".to_owned();
    message.append(decimal_text(month).as_str());
    message.append("/");
    message.append(decimal_text(year).as_str());
    message
}

} // verus!
