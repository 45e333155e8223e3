//! Hexadecimal text: what the encoding of a byte string is, and what decoding
//! a text yields.

use vstd::prelude::*;
use vstd::utf8::{encode_utf8, is_ascii_chars, is_ascii_chars_encode_utf8};

verus! {

/// Why a text is not the hexadecimal encoding of a byte string.
#[derive(Clone, Copy, Debug, PartialEq, Eq, Structural)]
pub enum HexError {
    /// The byte `c` at position `index` is no hexadecimal digit.
    InvalidHexCharacter { c: char, index: usize },
    /// The text has an odd number of bytes.
    OddLength,
    /// The text encodes a byte string of another length than the one asked for.
    InvalidStringLength,
}

/// The sixteen lowercase digits, by value.
pub open spec fn lower_digits() -> Seq<char> {
    seq!['0', '1', '2', '3', '4', '5', '6', '7', '8', '9', 'a', 'b', 'c', 'd', 'e', 'f']
}

/// The encoding of `bytes`: two lowercase digits for each byte, the high half
/// first.
pub open spec fn hex_chars(bytes: Seq<u8>) -> Seq<char> {
    Seq::new(
        2 * bytes.len(),
        |i: int|
            if i % 2 == 0 {
                lower_digits()[bytes[i / 2] as int / 16]
            } else {
                lower_digits()[bytes[i / 2] as int % 16]
            },
    )
}

/// The value of the digit that the byte `b` writes, in either case, if it
/// writes one.
pub open spec fn digit_value(b: u8) -> Option<int> {
    if 0x30 <= b <= 0x39 {
        Some(b - 0x30)
    } else if 0x41 <= b <= 0x46 {
        Some(b - 0x41 + 10)
    } else if 0x61 <= b <= 0x66 {
        Some(b - 0x61 + 10)
    } else {
        None
    }
}

/// The position of the first byte of `data` that is no digit.
pub open spec fn first_non_digit(data: Seq<u8>) -> Option<int>
    decreases data.len(),
{
    if data.len() == 0 {
        None
    } else if digit_value(data[0]) is None {
        Some(0)
    } else {
        match first_non_digit(data.drop_first()) {
            Some(i) => Some(i + 1),
            None => None,
        }
    }
}

/// The bytes that an even number of digits encode.
pub open spec fn digits_to_bytes(data: Seq<u8>) -> Seq<u8> {
    Seq::new(
        data.len() / 2,
        |i: int| (16 * digit_value(data[2 * i]).unwrap() + digit_value(data[2 * i + 1]).unwrap()) as u8,
    )
}

/// What decoding the text with the bytes `data` yields.
pub open spec fn hex_decode_spec(data: Seq<u8>) -> Result<Seq<u8>, HexError> {
    if data.len() % 2 != 0 {
        Err(HexError::OddLength)
    } else {
        match first_non_digit(data) {
            Some(i) => Err(HexError::InvalidHexCharacter { c: data[i] as char, index: i as usize }),
            None => Ok(digits_to_bytes(data)),
        }
    }
}

/// Calls `hex::encode`. Trusted: the text holds two lowercase digits for each
/// byte of the input, in order, the high half of a byte first.
#[verifier::external_body]
pub(crate) fn hex_encode(bytes: &[u8]) -> (text: String)
    ensures
        text@ == hex_chars(bytes@),
{
    hex::encode(bytes)
}

/// Calls `hex::decode` and carries its error over, variant by variant.
/// Trusted: a text with an odd number of bytes is refused as such; otherwise
/// the first byte that is no digit is reported, as a character and with its
/// position; otherwise each pair of digits, of either case, gives one byte.
#[verifier::external_body]
pub(crate) fn hex_decode(data: &[u8]) -> (decoded: Result<Vec<u8>, HexError>)
    ensures
        match decoded {
            Ok(bytes) => hex_decode_spec(data@) == Ok::<Seq<u8>, HexError>(bytes@),
            Err(e) => hex_decode_spec(data@) == Err::<Seq<u8>, HexError>(e),
        },
{
    match hex::decode(data) {
        Ok(bytes) => Ok(bytes),
        Err(hex::FromHexError::InvalidHexCharacter { c, index }) => Err(
            HexError::InvalidHexCharacter { c, index },
        ),
        Err(hex::FromHexError::OddLength) => Err(HexError::OddLength),
        Err(hex::FromHexError::InvalidStringLength) => Err(HexError::InvalidStringLength),
    }
}

/// `first_non_digit` finds the least position that holds no digit, and finds
/// none exactly when every byte is a digit.
pub proof fn lemma_first_non_digit(data: Seq<u8>)
    ensures
        match first_non_digit(data) {
            Some(i) => 0 <= i < data.len() && digit_value(data[i]) is None && forall|j: int|
                0 <= j < i ==> digit_value(#[trigger] data[j]) is Some,
            None => forall|j: int| 0 <= j < data.len() ==> digit_value(#[trigger] data[j]) is Some,
        },
    decreases data.len(),
{
    if data.len() > 0 && digit_value(data[0]) is Some {
        let rest = data.drop_first();
        lemma_first_non_digit(rest);
        match first_non_digit(rest) {
            Some(i) => {
                assert forall|j: int| 0 <= j < i + 1 implies digit_value(
                    #[trigger] data[j],
                ) is Some by {
                    if j > 0 {
                        assert(data[j] == rest[j - 1]);
                    }
                }
            },
            None => {
                assert forall|j: int| 0 <= j < data.len() implies digit_value(
                    #[trigger] data[j],
                ) is Some by {
                    if j > 0 {
                        assert(data[j] == rest[j - 1]);
                    }
                }
            },
        }
    }
}

/// Each lowercase digit is an ASCII character whose byte has the digit's value.
pub proof fn lemma_lower_digit(value: int)
    requires
        0 <= value < 16,
    ensures
        '\0' <= lower_digits()[value] <= '\u{7f}',
        digit_value(lower_digits()[value] as u8) == Some(value),
{
}

/// Decoding inverts encoding: the text that encodes `bytes` decodes to `bytes`.
pub proof fn lemma_hex_round_trip(bytes: Seq<u8>)
    ensures
        is_ascii_chars(hex_chars(bytes)),
        encode_utf8(hex_chars(bytes)).len() == 2 * bytes.len(),
        hex_decode_spec(encode_utf8(hex_chars(bytes))) == Ok::<Seq<u8>, HexError>(bytes),
{
    let text = hex_chars(bytes);
    assert forall|i: int| 0 <= i < text.len() implies '\0' <= #[trigger] text[i] <= '\u{7f}' by {
        lemma_lower_digit(bytes[i / 2] as int / 16);
        lemma_lower_digit(bytes[i / 2] as int % 16);
    }
    is_ascii_chars_encode_utf8(text);
    let data = encode_utf8(text);
    assert forall|j: int| 0 <= j < data.len() implies digit_value(#[trigger] data[j]) is Some by {
        assert(data[j] == text[j] as u8);
        lemma_lower_digit(bytes[j / 2] as int / 16);
        lemma_lower_digit(bytes[j / 2] as int % 16);
    }
    lemma_first_non_digit(data);
    assert(first_non_digit(data) is None);
    let back = digits_to_bytes(data);
    assert forall|i: int| 0 <= i < bytes.len() implies back[i] == bytes[i] by {
        lemma_lower_digit(bytes[i] as int / 16);
        lemma_lower_digit(bytes[i] as int % 16);
        assert(data[2 * i] == text[2 * i] as u8);
        assert(data[2 * i + 1] == text[2 * i + 1] as u8);
        assert((2 * i) / 2 == i && (2 * i + 1) / 2 == i);
        assert((2 * i) % 2 == 0 && (2 * i + 1) % 2 == 1);
    }
    assert(back =~= bytes);
}

} // verus!
