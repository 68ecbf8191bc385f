//! Hex-string encodings of ids and addresses, over the `hex` crate.
use vstd::prelude::*;

use crate::types::{ParseVidError, Vid};

verus! {

#[verifier::external_type_specification]
#[verifier::external_body]
pub struct ExFromHexError(hex::FromHexError);

/// The lowercase digit for a value below sixteen.
pub open spec fn hex_digit(n: u8) -> char {
    if n < 10 {
        (n + 48) as char
    } else {
        (n + 87) as char
    }
}

/// The lowercase hex spelling of a byte sequence: two digits per byte,
/// high nibble first.
pub open spec fn hex_of(bytes: Seq<u8>) -> Seq<char>
    decreases bytes.len(),
{
    if bytes.len() == 0 {
        Seq::empty()
    } else {
        seq![hex_digit(bytes[0] / 16), hex_digit(bytes[0] % 16)] + hex_of(bytes.drop_first())
    }
}

/// Whether the character is a hex digit, in either case.
pub open spec fn is_hex_char(c: char) -> bool {
    ('0' <= c && c <= '9') || ('a' <= c && c <= 'f') || ('A' <= c && c <= 'F')
}

/// The value of a hex digit, in either case.
pub open spec fn hex_char_value(c: char) -> u8 {
    if '0' <= c && c <= '9' {
        (c as u8 - 48) as u8
    } else if 'a' <= c && c <= 'f' {
        (c as u8 - 87) as u8
    } else {
        (c as u8 - 55) as u8
    }
}

/// Whether the string spells bytes in hex: even length, hex digits only.
pub open spec fn is_hex_string(s: Seq<char>) -> bool {
    s.len() % 2 == 0 && forall|i: int| 0 <= i < s.len() ==> is_hex_char(#[trigger] s[i])
}

/// The bytes a hex string spells, one byte per digit pair.
pub open spec fn hex_decoded(s: Seq<char>) -> Seq<u8>
    decreases s.len(),
{
    if s.len() < 2 {
        Seq::empty()
    } else {
        seq![(hex_char_value(s[0]) * 16 + hex_char_value(s[1])) as u8] + hex_decoded(s.skip(2))
    }
}

/// Relies on `hex::encode`: each byte becomes two lowercase hex digits,
/// high nibble first, in order.
#[verifier::external_body]
pub fn hex_encode(bytes: &[u8]) -> (r: String)
    ensures
        r@ == hex_of(bytes@),
{
    hex::encode(bytes)
}

/// Relies on `hex::decode`: it succeeds exactly on even-length strings of
/// hex digits in either case, and then inverts the digit spelling.
#[verifier::external_body]
pub fn hex_decode(s: &str) -> (r: Result<Vec<u8>, hex::FromHexError>)
    ensures
        r is Ok <==> is_hex_string(s@),
        r is Ok ==> r->Ok_0@ == hex_decoded(s@),
{
    hex::decode(s)
}

impl Vid {
    /// The id's canonical hex spelling: its 36 bytes, hex encoded.
    pub fn to_hex(&self) -> (r: String)
        ensures
            r@ == hex_of(crate::types::vid_bytes(*self)),
    {
        let bytes = self.to_vec();
        hex_encode(bytes.as_slice())
    }

    /// Parses the canonical hex spelling back: first the hex digits, then
    /// the 36-byte form.
    pub fn from_hex(s: &str) -> (r: Result<Self, ParseVidError>)
        ensures
            !is_hex_string(s@) ==> r matches Err(ParseVidError::InvalidHex(_)),
            is_hex_string(s@) && hex_decoded(s@).len() != 36 ==> (r matches Err(
                ParseVidError::InvalidLength(n),
            ) && n == hex_decoded(s@).len()),
            is_hex_string(s@) && hex_decoded(s@).len() == 36 ==> r is Ok && crate::types::vid_bytes(
                r->Ok_0,
            ) == hex_decoded(s@),
    {
        match hex_decode(s) {
            Err(e) => Err(ParseVidError::InvalidHex(e)),
            Ok(bytes) => Vid::try_from(bytes.as_slice()),
        }
    }
}

} // verus!
