//! The shared secret: hex text, as the file that client and harness share
//! holds it, decoded to the key that signs the tokens.

use vstd::prelude::*;
use vstd::utf8::encode_utf8;
use crate::text::{trim_text, trimmed};

verus! {

/// Why a text is not the hex form of a secret.
#[derive(Debug, Clone, Copy, PartialEq, Eq)]
pub enum SecretError {
    /// A character that is no hex digit, and the position of its byte.
    InvalidHexCharacter { c: char, index: usize },
    /// An odd number of digits: two digits make one byte.
    OddLength,
    /// The text does not fill a key of fixed length. Decoding to a key of
    /// any length never gives this.
    InvalidStringLength,
}

/// Whether `b` is the byte of one of `0-9`, `a-f`, `A-F`.
pub open spec fn is_hex_byte(b: u8) -> bool {
    ||| 0x30 <= b <= 0x39
    ||| 0x41 <= b <= 0x46
    ||| 0x61 <= b <= 0x66
}

/// The value of the hex digit whose byte is `b`.
pub open spec fn hex_byte_value(b: u8) -> nat {
    if 0x30 <= b <= 0x39 {
        (b - 0x30) as nat
    } else if 0x41 <= b <= 0x46 {
        (b - 0x41 + 10) as nat
    } else {
        (b - 0x61 + 10) as nat
    }
}

/// The bytes that the hex digits `data` write, two digits for each byte,
/// the high one first.
pub open spec fn decoded_bytes(data: Seq<u8>) -> Seq<u8> {
    Seq::new(
        (data.len() / 2) as nat,
        |i: int| (16 * hex_byte_value(data[2 * i]) + hex_byte_value(data[2 * i + 1])) as u8,
    )
}

/// Whether `outcome` is what decoding the hex text `data` gives: the bytes
/// where `data` is an even number of hex digits; `OddLength` where its
/// length is odd; and else its first byte that is no hex digit, with its
/// position.
pub open spec fn is_hex_decoding(data: Seq<u8>, outcome: Result<Seq<u8>, SecretError>) -> bool {
    match outcome {
        Ok(bytes) => {
            &&& data.len() % 2 == 0
            &&& forall|j: int| 0 <= j < data.len() ==> is_hex_byte(#[trigger] data[j])
            &&& bytes == decoded_bytes(data)
        },
        Err(SecretError::OddLength) => data.len() % 2 == 1,
        Err(SecretError::InvalidHexCharacter { c, index }) => {
            &&& data.len() % 2 == 0
            &&& index < data.len()
            &&& !is_hex_byte(data[index as int])
            &&& c == data[index as int] as char
            &&& forall|j: int| 0 <= j < index ==> is_hex_byte(#[trigger] data[j])
        },
        Err(SecretError::InvalidStringLength) => false,
    }
}

/// The outcome of a decoding with the bytes as a sequence.
pub open spec fn outcome_view(outcome: Result<Vec<u8>, SecretError>) -> Result<Seq<u8>, SecretError> {
    match outcome {
        Ok(bytes) => Ok(bytes@),
        Err(e) => Err(e),
    }
}

/// Calls `hex::decode`. The crate first refuses an odd length, then reads
/// the digits pair by pair and stops at the first byte that is no hex
/// digit, which it reports as a character together with its position.
#[verifier::external_body]
fn hex_decode(data: &[u8]) -> (outcome: Result<Vec<u8>, SecretError>)
    ensures
        is_hex_decoding(data@, outcome_view(outcome)),
{
    match hex::decode(data) {
        Ok(bytes) => Ok(bytes),
        Err(hex::FromHexError::InvalidHexCharacter { c, index }) => Err(
            SecretError::InvalidHexCharacter { c, index },
        ),
        Err(hex::FromHexError::OddLength) => Err(SecretError::OddLength),
        Err(hex::FromHexError::InvalidStringLength) => Err(SecretError::InvalidStringLength),
    }
}

/// Reads the secret from the text of its file: the hex digits that remain
/// when the white space around them is taken off.
pub fn decode_secret(text: &str) -> (secret: Result<Vec<u8>, SecretError>)
    ensures
        is_hex_decoding(encode_utf8(trimmed(text@)), outcome_view(secret)),
{
    hex_decode(trim_text(text).as_bytes())
}

} // verus!
