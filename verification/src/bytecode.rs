//! The deployment code, which arrives as hexadecimal text.

use vstd::prelude::*;

verus! {

/// Why a text is not hexadecimal.
#[derive(Clone, Copy, Debug, PartialEq, Eq)]
pub enum HexError {
    /// The text has an odd number of bytes.
    OddLength,
    /// A byte that is no hexadecimal digit, and where it stands behind the
    /// prefix.
    InvalidCharacter { character: char, index: usize },
    /// The text does not have the length that was asked for. Decoding to
    /// as many bytes as the text spells never ends so.
    WrongLength,
}

/// The value of a hexadecimal digit, in either case.
pub open spec fn digit_value(b: u8) -> Option<u8> {
    if 0x30 <= b <= 0x39 {
        Some((b - 0x30) as u8)
    } else if 0x41 <= b <= 0x46 {
        Some((b - 0x41 + 10) as u8)
    } else if 0x61 <= b <= 0x66 {
        Some((b - 0x61 + 10) as u8)
    } else {
        None
    }
}

/// The text without a leading `0x` or `0X`.
pub open spec fn without_prefix(text: Seq<u8>) -> Seq<u8> {
    if text.len() >= 2 && text[0] == 0x30 && (text[1] == 0x78 || text[1] == 0x58) {
        text.skip(2)
    } else {
        text
    }
}

/// Every byte before `end` is a hexadecimal digit.
pub open spec fn digits_up_to(body: Seq<u8>, end: int) -> bool {
    forall|i: int| 0 <= i < end ==> digit_value(#[trigger] body[i]) is Some
}

/// The bytes that the digits of `body` spell, two digits to a byte, the high
/// one first.
pub open spec fn spelled(body: Seq<u8>) -> Seq<u8> {
    Seq::new(
        (body.len() / 2) as nat,
        |i: int| (16 * digit_value(body[2 * i]).unwrap() + digit_value(body[2 * i + 1]).unwrap()) as u8,
    )
}

/// What decoding `text` comes to. An odd length is refused first; then the
/// prefix is dropped; then the first byte that is no digit is refused.
pub open spec fn decodes_to(text: Seq<u8>, outcome: Result<Seq<u8>, HexError>) -> bool {
    let body = without_prefix(text);
    match outcome {
        Ok(bytes) => text.len() % 2 == 0 && digits_up_to(body, body.len() as int) && bytes
            == spelled(body),
        Err(HexError::OddLength) => text.len() % 2 != 0,
        Err(HexError::InvalidCharacter { character, index }) => {
            &&& text.len() % 2 == 0
            &&& index < body.len()
            &&& digits_up_to(body, index as int)
            &&& digit_value(body[index as int]) is None
            &&& character == body[index as int] as char
        },
        Err(HexError::WrongLength) => false,
    }
}

/// `alloy::hex::decode`. The contract restates what the function does with
/// its input: it refuses a text of odd length, drops one leading `0x` or
/// `0X`, and either returns the bytes that the remaining digits spell or
/// names the first byte that is no digit, together with its place behind
/// the prefix.
#[verifier::external_body]
fn decode_hex(text: &[u8]) -> (outcome: Result<Vec<u8>, HexError>)
    ensures
        decodes_to(
            text@,
            match outcome {
                Ok(bytes) => Ok(bytes@),
                Err(error) => Err(error),
            },
        ),
{
    match alloy::hex::decode(text) {
        Ok(bytes) => Ok(bytes),
        Err(alloy::hex::FromHexError::OddLength) => Err(HexError::OddLength),
        Err(alloy::hex::FromHexError::InvalidHexCharacter { c, index }) => Err(
            HexError::InvalidCharacter { character: c, index },
        ),
        Err(alloy::hex::FromHexError::InvalidStringLength) => Err(HexError::WrongLength),
    }
}

/// The deployment code that `text` spells in hexadecimal, with or without a
/// leading `0x`.
pub fn deployment_code(text: &[u8]) -> (outcome: Result<Vec<u8>, HexError>)
    ensures
        decodes_to(
            text@,
            match outcome {
                Ok(bytes) => Ok(bytes@),
                Err(error) => Err(error),
            },
        ),
        outcome matches Ok(bytes) ==> bytes@.len() == without_prefix(text@).len() / 2,
{
    decode_hex(text)
}

/// The outcome of decoding is determined by the text.
pub proof fn law_decoding_is_determined(
    text: Seq<u8>,
    one: Result<Seq<u8>, HexError>,
    other: Result<Seq<u8>, HexError>,
)
    requires
        decodes_to(text, one),
        decodes_to(text, other),
    ensures
        one == other,
{
    let body = without_prefix(text);
    match (one, other) {
        (
            Err(HexError::InvalidCharacter { character: c1, index: i1 }),
            Err(HexError::InvalidCharacter { character: c2, index: i2 }),
        ) => {
            if i1 < i2 {
                assert(digit_value(body[i1 as int]) is Some);
            }
            if i2 < i1 {
                assert(digit_value(body[i2 as int]) is Some);
            }
        },
        (Ok(_), Err(HexError::InvalidCharacter { character, index })) => {
            assert(digit_value(body[index as int]) is Some);
        },
        (Err(HexError::InvalidCharacter { character, index }), Ok(_)) => {
            assert(digit_value(body[index as int]) is Some);
        },
        _ => {},
    }
}

} // verus!
