//! Identifiers of users, organizations and resources.
//!
//! An identifier is a 128-bit number. On the wire and in a token's subject it
//! is written as 32 lower-case hexadecimal digits in five hyphenated groups.

use vstd::arithmetic::power2::pow2;
use vstd::prelude::*;

verus! {

/// A 128-bit identifier.
#[derive(Clone, Copy, Debug, PartialEq, Eq, Hash, Structural)]
pub struct Id(pub u128);

/// The lower-case hexadecimal digit of a number below 16.
pub open spec fn hex_digit(n: int) -> char {
    if n < 10 {
        ((48 + n) as u8) as char
    } else {
        ((87 + n) as u8) as char
    }
}

/// The `k`-th of the 32 hexadecimal digits of `v`, the most significant first.
pub open spec fn nibble(v: u128, k: int) -> int {
    (v as int / (pow2((4 * (31 - k)) as nat) as int)) % 16
}

/// How many hyphens stand before position `i` of the hyphenated form.
pub open spec fn hyphens_before(i: int) -> int {
    if i < 8 {
        0
    } else if i < 13 {
        1
    } else if i < 18 {
        2
    } else if i < 23 {
        3
    } else {
        4
    }
}

/// The hyphenated form of `v`: 36 characters, hyphens at positions 8, 13, 18
/// and 23, hexadecimal digits elsewhere.
pub open spec fn spec_hyphenated(v: u128) -> Seq<char> {
    Seq::new(
        36,
        |i: int|
            if i == 8 || i == 13 || i == 18 || i == 23 {
                '-'
            } else {
                hex_digit(nibble(v, i - hyphens_before(i)))
            },
    )
}

/// What `uuid::Uuid::parse_str` makes of a text: the identifier's number, or
/// nothing where the text is not an identifier in one of the accepted forms.
pub uninterp spec fn uuid_parsed(text: Seq<char>) -> Option<u128>;

/// Calls `uuid::Uuid::parse_str` and hands back the number of the identifier
/// it read, as `uuid::Uuid::as_u128` gives it. Trusted: the result is what the
/// parser makes of the text, and of nothing else.
#[verifier::external_body]
fn parse_uuid(text: &str) -> (r: Option<u128>)
    ensures
        r == uuid_parsed(text@),
{
    match uuid::Uuid::parse_str(text) {
        Ok(read) => Some(read.as_u128()),
        Err(_) => None,
    }
}

/// Calls `to_string` on the `uuid::Uuid` made of `v` by `uuid::Uuid::from_u128`.
/// Trusted: the text is the lower-case hyphenated form, and the parser reads it
/// back as `v`, as the crate documents of every form it writes.
#[verifier::external_body]
fn format_uuid(v: u128) -> (text: String)
    ensures
        text@ == spec_hyphenated(v),
        uuid_parsed(text@) == Some(v),
{
    uuid::Uuid::from_u128(v).to_string()
}

impl Id {
    /// The identifier a text stands for, if it stands for one.
    pub open spec fn spec_parse(text: Seq<char>) -> Option<Id> {
        match uuid_parsed(text) {
            Some(v) => Some(Id(v)),
            None => None,
        }
    }

    /// Reads an identifier from its text form.
    pub fn parse(text: &str) -> (r: Option<Id>)
        ensures
            r == Id::spec_parse(text@),
    {
        match parse_uuid(text) {
            Some(v) => Some(Id(v)),
            None => None,
        }
    }

    /// The hyphenated form. Parsing it gives the identifier back.
    pub fn to_text(&self) -> (text: String)
        ensures
            text@ == spec_hyphenated(self.0),
            Id::spec_parse(text@) == Some(*self),
    {
        format_uuid(self.0)
    }
}

/// The hyphenated form has 36 characters and its hyphens where they belong.
pub proof fn hyphenated_shape(v: u128)
    ensures
        spec_hyphenated(v).len() == 36,
        spec_hyphenated(v)[8] == '-',
        spec_hyphenated(v)[13] == '-',
        spec_hyphenated(v)[18] == '-',
        spec_hyphenated(v)[23] == '-',
{
}

} // verus!
