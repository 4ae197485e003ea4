//! Identifiers.

use vstd::prelude::*;

verus! {

/// Characters of an identifier.
pub const ID_LENGTH: usize = 26;

/// Digits and upper-case letters, without the letters that read like digits.
pub open spec fn is_id_char(c: char) -> bool {
    '0' <= c <= '9' || ('A' <= c <= 'Z' && c != 'I' && c != 'L' && c != 'O' && c != 'U')
}

/// The text has the form of an identifier.
pub open spec fn is_id(s: Seq<char>) -> bool {
    s.len() == ID_LENGTH && forall|i: int| 0 <= i < s.len() ==> is_id_char(#[trigger] s[i])
}

/// Calls `ulid::Ulid::new` and `Ulid::to_string`. The identifier is made of the
/// time and of random bits, so only its form is known.
#[verifier::external_body]
pub(crate) fn fresh_id() -> (r: String)
    ensures
        is_id(r@),
{
    ulid::Ulid::new().to_string()
}

/// A new identifier.
pub fn new_id() -> (r: String)
    ensures
        is_id(r@),
{
    fresh_id()
}

} // verus!
