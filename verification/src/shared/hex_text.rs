//! Hexadecimal text, as the `hex` crate writes and reads it.

use vstd::prelude::*;
use super::checksum::Checksum;
use super::constants::HASH_OUTPUT_LENGTH;

verus! {

/// `hex::FromHexError`, carried as it comes: nothing inside it is read.
#[verifier::external_type_specification]
#[verifier::external_body]
pub struct ExFromHexError(hex::FromHexError);

/// The upper-case hexadecimal digit for a value below sixteen.
pub open spec fn upper_hex_digit(n: nat) -> char {
    if n < 10 {
        (n + 48) as char
    } else {
        (n + 55) as char
    }
}

/// The value of a hexadecimal digit of either case.
pub open spec fn hex_digit_value(c: char) -> Option<nat> {
    if '0' <= c <= '9' {
        Some((c as nat - 48) as nat)
    } else if 'a' <= c <= 'f' {
        Some((c as nat - 87) as nat)
    } else if 'A' <= c <= 'F' {
        Some((c as nat - 55) as nat)
    } else {
        None
    }
}

/// Two upper-case digits for each byte, the high half first.
pub open spec fn hex_upper(bytes: Seq<u8>) -> Seq<char> {
    Seq::new(
        2 * bytes.len(),
        |i: int|
            if i % 2 == 0 {
                upper_hex_digit((bytes[i / 2] / 16) as nat)
            } else {
                upper_hex_digit((bytes[i / 2] % 16) as nat)
            },
    )
}

/// Whether every character is a hexadecimal digit.
pub open spec fn all_hex_digits(text: Seq<char>) -> bool {
    forall|i: int| 0 <= i < text.len() ==> (#[trigger] hex_digit_value(text[i])) is Some
}

/// The bytes that a text of hexadecimal digit pairs denotes.
pub open spec fn hex_decode(text: Seq<char>) -> Option<Seq<u8>> {
    if text.len() % 2 == 0 && all_hex_digits(text) {
        Some(
            Seq::new(
                text.len() / 2,
                |i: int|
                    (hex_digit_value(text[2 * i])->Some_0 * 16 + hex_digit_value(
                        text[2 * i + 1],
                    )->Some_0) as u8,
            ),
        )
    } else {
        None
    }
}

/// The digest that a text denotes: exactly two digits for each of its bytes.
pub open spec fn hex_decode_digest(text: Seq<char>) -> Option<Seq<u8>> {
    if text.len() == 2 * HASH_OUTPUT_LENGTH {
        hex_decode(text)
    } else {
        None
    }
}

/// Reading back the upper-case text of some bytes gives the bytes.
pub proof fn lemma_hex_round_trip(bytes: Seq<u8>)
    ensures
        hex_upper(bytes).len() == 2 * bytes.len(),
        hex_decode(hex_upper(bytes)) == Some(bytes),
{
    let text = hex_upper(bytes);
    assert forall|i: int| 0 <= i < text.len() implies (#[trigger] hex_digit_value(
        text[i],
    )) is Some by {
        let b = bytes[i / 2];
        assert(0 <= b / 16 < 16 && 0 <= b % 16 < 16);
    }
    let decoded = hex_decode(text)->Some_0;
    assert forall|i: int| 0 <= i < bytes.len() implies decoded[i] == bytes[i] by {
        let b = bytes[i];
        assert(0 <= b / 16 < 16 && 0 <= b % 16 < 16);
        assert((2 * i) / 2 == i && (2 * i + 1) / 2 == i);
        assert(text[2 * i] == upper_hex_digit((b / 16) as nat));
        assert(text[2 * i + 1] == upper_hex_digit((b % 16) as nat));
        assert(hex_digit_value(text[2 * i]) == Some((b / 16) as nat));
        assert(hex_digit_value(text[2 * i + 1]) == Some((b % 16) as nat));
    }
    assert(decoded =~= bytes);
}

/// No hexadecimal text holds a line end.
pub proof fn lemma_hex_plain(bytes: Seq<u8>)
    ensures
        forall|i: int|
            0 <= i < hex_upper(bytes).len() ==> hex_upper(bytes)[i] != '\n' && hex_upper(
                bytes,
            )[i] != '\r',
{
    assert forall|i: int| 0 <= i < hex_upper(bytes).len() implies hex_upper(bytes)[i] != '\n'
        && hex_upper(bytes)[i] != '\r' by {
        let b = bytes[i / 2];
        assert(0 <= b / 16 < 16 && 0 <= b % 16 < 16);
    }
}

/// Calls `hex::encode_upper`, which writes each byte as two characters of
/// `0123456789ABCDEF`, the high half first.
#[verifier::external_body]
pub(crate) fn encode_upper(data: &[u8]) -> (r: String)
    ensures
        r@ == hex_upper(data@),
{
    hex::encode_upper(data)
}

/// Calls `hex::decode_to_slice` on a buffer of `HASH_OUTPUT_LENGTH` bytes. It
/// succeeds exactly when the text has two hexadecimal digits for each byte
/// of the buffer, and then fills the buffer with the bytes they denote. It
/// reads the text byte by byte; a hexadecimal digit is one byte, so a text
/// that it accepts has as many characters as bytes.
#[verifier::external_body]
pub(crate) fn decode_digest(text: &str) -> (r: Result<Checksum, hex::FromHexError>)
    ensures
        match r {
            Ok(digest) => hex_decode_digest(text@) == Some(digest@),
            Err(_) => hex_decode_digest(text@) is None,
        },
{
    let mut bytes = [0u8; HASH_OUTPUT_LENGTH];
    match hex::decode_to_slice(text, &mut bytes) {
        Ok(()) => Ok(Checksum::from_bytes(bytes)),
        Err(err) => Err(err),
    }
}

impl Checksum {
    /// The digest in upper-case hexadecimal.
    pub fn to_string(&self) -> (r: String)
        ensures
            r@ == hex_upper(self@),
    {
        encode_upper(self.as_ref().as_slice())
    }
}

} // verus!
