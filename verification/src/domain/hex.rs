use vstd::prelude::*;

use crate::domain::error::{CoreError, ErrorKind};
use crate::text::push_char;
use vstd::string::StringSliceAdditionalSpecFns;

verus! {

/// The lowercase hexadecimal digit for a value below 16.
pub open spec fn hex_digit(v: int) -> char {
    if v < 10 {
        (48 + v) as char
    } else {
        (87 + v) as char
    }
}

/// Lowercase hexadecimal text for `bytes`, two digits per byte, high nibble first.
pub open spec fn hex_encode(bytes: Seq<u8>) -> Seq<char> {
    Seq::new(
        2 * bytes.len(),
        |k: int|
            if k % 2 == 0 {
                hex_digit((bytes[k / 2] / 16) as int)
            } else {
                hex_digit((bytes[k / 2] % 16) as int)
            },
    )
}

/// The value of one hexadecimal digit byte, accepting both letter cases.
pub open spec fn nibble_value(c: u8) -> Option<u8> {
    if 48 <= c <= 57 {
        Some((c - 48) as u8)
    } else if 97 <= c <= 102 {
        Some((c - 87) as u8)
    } else if 65 <= c <= 70 {
        Some((c - 55) as u8)
    } else {
        None
    }
}

/// Every byte of `text` is a hexadecimal digit.
pub open spec fn all_hex_digits(text: Seq<u8>) -> bool {
    forall|i: int| 0 <= i < text.len() ==> (#[trigger] nibble_value(text[i])) is Some
}

/// The bytes that the hexadecimal `text` spells, two digits per byte.
pub open spec fn hex_decode(text: Seq<u8>) -> Seq<u8> {
    Seq::new(
        text.len() / 2,
        |i: int|
            (nibble_value(text[2 * i])->0 * 16 + nibble_value(text[2 * i + 1])->0) as u8,
    )
}

/// The 16 bytes of an identifier written as exactly 32 hexadecimal digits, if `text` is one.
pub open spec fn parse_hex_id(text: Seq<u8>) -> Option<Seq<u8>> {
    if text.len() == 32 && all_hex_digits(text) {
        Some(hex_decode(text))
    } else {
        None
    }
}

/// The bytes of ASCII text.
pub open spec fn ascii_bytes(text: Seq<char>) -> Seq<u8> {
    Seq::new(text.len(), |i: int| text[i] as u8)
}

pub fn hex_digit_char(v: u8) -> (c: char)
    requires
        v < 16,
    ensures
        c == hex_digit(v as int),
{
    if v < 10 {
        (48 + v) as char
    } else {
        (87 + v) as char
    }
}

/// Lowercase hexadecimal encoding of `bytes`.
pub fn encode_hex(bytes: &[u8]) -> (text: String)
    ensures
        text@ == hex_encode(bytes@),
{
    let mut text = String::new();
    let mut i: usize = 0;
    while i < bytes.len()
        invariant
            i <= bytes@.len(),
            text@ =~= hex_encode(bytes@.take(i as int)),
        decreases bytes@.len() - i,
    {
        let byte = bytes[i];
        assert(byte >> 4 == byte / 16 && byte & 0x0f == byte % 16) by (bit_vector);
        push_char(&mut text, hex_digit_char(byte >> 4));
        push_char(&mut text, hex_digit_char(byte & 0x0f));
        assert(text@ =~= hex_encode(bytes@.take(i + 1)));
        i += 1;
    }
    assert(bytes@.take(bytes@.len() as int) =~= bytes@);
    text
}

pub fn decode_nibble(value: u8) -> (nibble: Option<u8>)
    ensures
        nibble == nibble_value(value),
{
    if 48 <= value && value <= 57 {
        Some(value - 48)
    } else if 97 <= value && value <= 102 {
        Some(value - 87)
    } else if 65 <= value && value <= 70 {
        Some(value - 55)
    } else {
        None
    }
}

/// Why identifier text is refused.
pub open spec fn hex_id_error(text: Seq<u8>) -> Seq<char> {
    if text.len() != 32 {
        "identifier must contain exactly 32 hexadecimal characters"@
    } else {
        "identifier contains non-hexadecimal data"@
    }
}

/// Decodes exactly 32 hexadecimal characters (either case) into identifier bytes.
pub fn decode_hex_id(value: &str) -> (result: Result<[u8; 16], CoreError>)
    ensures
        match result {
            Ok(bytes) => parse_hex_id(value.spec_bytes()) == Some(bytes@),
            Err(error) => parse_hex_id(value.spec_bytes()) is None && error.spec_kind()
                == ErrorKind::InvalidInput && error.spec_message() == hex_id_error(
                value.spec_bytes(),
            ) && error.spec_diagnostic() is None,
        },
{
    let input = value.as_bytes();
    if input.len() != 32 {
        return Err(
            CoreError::new(
                ErrorKind::InvalidInput,
                "identifier must contain exactly 32 hexadecimal characters",
            ),
        );
    }
    let ghost text = input@;
    let mut bytes = [0u8; 16];
    let mut index: usize = 0;
    while index < 16
        invariant
            index <= 16,
            text == input@,
            input@ == value.spec_bytes(),
            text.len() == 32,
            forall|k: int| 0 <= k < 2 * index ==> (#[trigger] nibble_value(text[k])) is Some,
            forall|j: int|
                0 <= j < index ==> #[trigger] bytes@[j] == (nibble_value(text[2 * j])->0 * 16
                    + nibble_value(text[2 * j + 1])->0) as u8,
        decreases 16 - index,
    {
        let high = match decode_nibble(input[index * 2]) {
            Some(v) => v,
            None => {
                assert(nibble_value(text[2 * index as int]) is None);
                assert(!all_hex_digits(text));
                return Err(
                    CoreError::new(
                        ErrorKind::InvalidInput,
                        "identifier contains non-hexadecimal data",
                    ),
                );
            },
        };
        let low = match decode_nibble(input[index * 2 + 1]) {
            Some(v) => v,
            None => {
                assert(nibble_value(text[2 * index + 1]) is None);
                assert(!all_hex_digits(text));
                return Err(
                    CoreError::new(
                        ErrorKind::InvalidInput,
                        "identifier contains non-hexadecimal data",
                    ),
                );
            },
        };
        assert(high < 16 && low < 16);
        assert((high << 4u8) | low == high * 16 + low) by (bit_vector)
            requires
                high < 16,
                low < 16,
        ;
        bytes[index] = (high << 4) | low;
        index += 1;
    }
    assert(bytes@ =~= hex_decode(text));
    Ok(bytes)
}

/// Hexadecimal text written by `hex_encode` is read back by `parse_hex_id` as the same bytes.
pub proof fn lemma_hex_id_round_trip(bytes: Seq<u8>)
    requires
        bytes.len() == 16,
    ensures
        parse_hex_id(ascii_bytes(hex_encode(bytes))) == Some(bytes),
{
    lemma_hex_round_trip(bytes);
}

/// Hexadecimal text written by `hex_encode` is all digits, of even length, and decodes back.
pub proof fn lemma_hex_round_trip(bytes: Seq<u8>)
    ensures
        all_hex_digits(ascii_bytes(hex_encode(bytes))),
        ascii_bytes(hex_encode(bytes)).len() == 2 * bytes.len(),
        hex_decode(ascii_bytes(hex_encode(bytes))) == bytes,
{
    let text = ascii_bytes(hex_encode(bytes));
    assert forall|k: int| 0 <= k < text.len() implies (#[trigger] nibble_value(text[k])) is Some by {
        let b = bytes[k / 2];
        assert(b / 16 < 16 && b % 16 < 16);
    }
    assert forall|i: int| 0 <= i < bytes.len() implies #[trigger] hex_decode(text)[i] == bytes[i] by {
        let b = bytes[i];
        assert((2 * i) / 2 == i && (2 * i + 1) / 2 == i);
        assert((2 * i) % 2 == 0 && (2 * i + 1) % 2 == 1);
        assert(b / 16 * 16 + b % 16 == b);
    }
    assert(hex_decode(text) =~= bytes);
}

/// The hexadecimal text is ASCII, so its bytes are its characters.
pub proof fn lemma_hex_encode_is_ascii(bytes: Seq<u8>)
    ensures
        vstd::utf8::is_ascii_chars(hex_encode(bytes)),
        vstd::utf8::encode_utf8(hex_encode(bytes)) == ascii_bytes(hex_encode(bytes)),
{
    let text = hex_encode(bytes);
    assert forall|k: int| 0 <= k < text.len() implies '\0' <= #[trigger] text[k] <= '\u{7f}' by {
        let b = bytes[k / 2];
        assert(b / 16 < 16 && b % 16 < 16);
    }
    vstd::utf8::is_ascii_chars_encode_utf8(text);
    assert(vstd::utf8::encode_utf8(text) =~= ascii_bytes(text));
}

/// Why hexadecimal text of any length is refused: `Some(true)` for an odd length,
/// `Some(false)` for a character that is not a hexadecimal digit.
pub open spec fn hex_text_error(text: Seq<u8>) -> Option<bool> {
    if text.len() % 2 != 0 {
        Some(true)
    } else if !all_hex_digits(text) {
        Some(false)
    } else {
        None
    }
}

/// Decodes hexadecimal text of any even length, two digits per byte.
pub fn decode_hex_bytes(text: &[u8]) -> (result: Result<Vec<u8>, bool>)
    ensures
        match result {
            Ok(bytes) => hex_text_error(text@) is None && bytes@ == hex_decode(text@),
            Err(odd) => hex_text_error(text@) == Some(odd),
        },
{
    if text.len() % 2 != 0 {
        return Err(true);
    }
    let mut bytes: Vec<u8> = Vec::new();
    let mut index: usize = 0;
    let pairs = text.len() / 2;
    while index < pairs
        invariant
            pairs == text@.len() / 2,
            text@.len() % 2 == 0,
            index <= pairs,
            bytes@.len() == index,
            forall|k: int| 0 <= k < 2 * index ==> (#[trigger] nibble_value(text@[k])) is Some,
            forall|j: int|
                0 <= j < index ==> #[trigger] bytes@[j] == (nibble_value(text@[2 * j])->0 * 16
                    + nibble_value(text@[2 * j + 1])->0) as u8,
        decreases pairs - index,
    {
        let high = match decode_nibble(text[index * 2]) {
            Some(v) => v,
            None => {
                assert(nibble_value(text@[2 * index as int]) is None);
                return Err(false);
            },
        };
        let low = match decode_nibble(text[index * 2 + 1]) {
            Some(v) => v,
            None => {
                assert(nibble_value(text@[2 * index + 1]) is None);
                return Err(false);
            },
        };
        assert((high << 4u8) | low == high * 16 + low) by (bit_vector)
            requires
                high < 16,
                low < 16,
        ;
        bytes.push((high << 4) | low);
        index += 1;
    }
    assert(bytes@ =~= hex_decode(text@));
    Ok(bytes)
}

} // verus!
