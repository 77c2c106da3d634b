//! Identifiers: 128-bit values written in the canonical dashed form.

use vstd::prelude::*;

verus! {

/// Lowercase hexadecimal digit of a value below 16.
pub open spec fn hex_digit(n: int) -> char {
    seq!['0', '1', '2', '3', '4', '5', '6', '7', '8', '9', 'a', 'b', 'c', 'd', 'e', 'f'][n]
}

/// The `j`-th hexadecimal digit of `v`, counted from the most significant one.
pub open spec fn nibble(v: u128, j: int) -> int {
    ((v >> ((124 - 4 * j) as u128)) & 15u128) as int
}

/// Position in the 32 hex digits of the character at position `k` of the dashed form.
pub open spec fn digit_index(k: int) -> int {
    if k < 8 {
        k
    } else if k < 13 {
        k - 1
    } else if k < 18 {
        k - 2
    } else if k < 23 {
        k - 3
    } else {
        k - 4
    }
}

/// Whether position `k` of the dashed form holds a hyphen.
pub open spec fn is_dash_position(k: int) -> bool {
    k == 8 || k == 13 || k == 18 || k == 23
}

/// The canonical dashed text of an identifier: 32 lowercase hex digits, most
/// significant first, grouped 8-4-4-4-12.
pub open spec fn dashed(v: u128) -> Seq<char> {
    Seq::new(36, |k: int| if is_dash_position(k) { '-' } else { hex_digit(nibble(v, digit_index(k))) })
}

/// What `uuid::Uuid::parse_str` returns for a text: the identifier, or `None` when the text is refused.
pub uninterp spec fn uuid_parse_of(s: Seq<char>) -> Option<u128>;

/// Relies on `uuid::Uuid`'s `Display`, which writes the hyphenated lowercase form
/// of the big-endian bytes that `Uuid::from_u128` holds.
#[verifier::external_body]
pub fn id_text(id: u128) -> (r: String)
    ensures
        r@ == dashed(id),
{
    uuid::Uuid::from_u128(id).to_string()
}

/// Relies on `uuid::Uuid::parse_str`: the result depends on the text alone, and
/// the canonical dashed form of a value is read back as that value.
#[verifier::external_body]
pub fn parse_id(s: &str) -> (r: Option<u128>)
    ensures
        r == uuid_parse_of(s@),
        forall|v: u128| s@ == dashed(v) ==> r == Some(v),
{
    uuid::Uuid::parse_str(s).ok().map(|u| u.as_u128())
}

} // verus!
