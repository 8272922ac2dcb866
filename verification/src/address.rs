//! The printable address of an account.
//!
//! An address is the canonical string encoding of the account's public key:
//! two lowercase hexadecimal digits per byte, high nibble first.

use vstd::prelude::*;

verus! {

/// The hexadecimal digit for a value below sixteen.
pub open spec fn hex_digit(n: int) -> char {
    if n == 0 {
        '0'
    } else if n == 1 {
        '1'
    } else if n == 2 {
        '2'
    } else if n == 3 {
        '3'
    } else if n == 4 {
        '4'
    } else if n == 5 {
        '5'
    } else if n == 6 {
        '6'
    } else if n == 7 {
        '7'
    } else if n == 8 {
        '8'
    } else if n == 9 {
        '9'
    } else if n == 10 {
        'a'
    } else if n == 11 {
        'b'
    } else if n == 12 {
        'c'
    } else if n == 13 {
        'd'
    } else if n == 14 {
        'e'
    } else {
        'f'
    }
}

/// The lowercase hexadecimal encoding of a byte sequence: two digits per
/// byte, high nibble first.
pub open spec fn hex_of(b: Seq<u8>) -> Seq<char> {
    Seq::new(
        b.len() * 2,
        |i: int| if i % 2 == 0 {
            hex_digit(b[i / 2] as int / 16)
        } else {
            hex_digit(b[i / 2] as int % 16)
        },
    )
}

/// Hexadecimal encodings hold ASCII characters only, so their text encodes
/// to exactly one byte per character.
pub proof fn lemma_hex_ascii(b: Seq<u8>)
    ensures
        vstd::utf8::is_ascii_chars(hex_of(b)),
        vstd::utf8::encode_utf8(hex_of(b)).len() == hex_of(b).len(),
{
    assert forall|i: int| 0 <= i < hex_of(b).len() implies '\0' <= #[trigger] hex_of(b)[i]
        <= '\u{7f}' by {
        let d = if i % 2 == 0 {
            b[i / 2] as int / 16
        } else {
            b[i / 2] as int % 16
        };
        assert(hex_of(b)[i] == hex_digit(d));
    }
    assert(vstd::utf8::is_ascii_chars(hex_of(b)));
    vstd::utf8::is_ascii_chars_encode_utf8(hex_of(b));
}

/// Relies on hex::encode: the result is the lowercase hexadecimal encoding
/// of the input, two digits per byte with the high nibble first.
#[verifier::external_body]
fn to_hex(bytes: &[u8]) -> (r: String)
    ensures
        r@ == hex_of(bytes@),
{
    hex::encode(bytes)
}

/// The address string shown for a public key.
pub fn encode_address(public_key: &[u8]) -> (r: String)
    ensures
        r@ == hex_of(public_key@),
        r@.len() == public_key@.len() * 2,
{
    to_hex(public_key)
}

} // verus!
