//! Colour channels as hexadecimal text: two digits for each byte, upper case when
//! written, either case when read.

use vstd::prelude::*;
use crate::error::CodecError;

verus! {

/// The upper-case ASCII digit for a value below sixteen.
pub open spec fn hex_digit(nibble: u8) -> u8 {
    if nibble < 10 {
        (0x30 + nibble) as u8
    } else {
        (0x37 + nibble) as u8
    }
}

/// The value of an ASCII hexadecimal digit of either case; `None` for any other
/// byte.
pub open spec fn hex_value(digit: u8) -> Option<u8> {
    if 0x30 <= digit <= 0x39 {
        Some((digit - 0x30) as u8)
    } else if 0x41 <= digit <= 0x46 {
        Some((digit - 0x37) as u8)
    } else if 0x61 <= digit <= 0x66 {
        Some((digit - 0x57) as u8)
    } else {
        None
    }
}

/// The byte that a pair of digits stands for; `None` unless both are hexadecimal
/// digits.
pub open spec fn pair_value(high: u8, low: u8) -> Option<u8> {
    match (hex_value(high), hex_value(low)) {
        (Some(h), Some(l)) => Some((16 * h + l) as u8),
        _ => None,
    }
}

/// Every byte of `text` is a hexadecimal digit.
pub open spec fn is_hex_text(text: Seq<u8>) -> bool {
    forall|i: int| 0 <= i < text.len() ==> (#[trigger] hex_value(text[i])) is Some
}

/// The text of a channel sequence: for each byte its high digit, then its low one.
pub open spec fn hex_text(channels: Seq<u8>) -> Seq<u8> {
    Seq::new(
        2 * channels.len(),
        |i: int|
            if i % 2 == 0 {
                hex_digit(channels[i / 2] / 16)
            } else {
                hex_digit(channels[i / 2] % 16)
            },
    )
}

/// The bytes that a text of digit pairs stands for, pair by pair. A trailing odd
/// digit is left out.
pub open spec fn hex_bytes(text: Seq<u8>) -> Seq<u8> {
    Seq::new(
        (text.len() / 2) as nat,
        |i: int| (16 * hex_value(text[2 * i]).unwrap() + hex_value(text[2 * i + 1]).unwrap()) as u8,
    )
}

/// What a pixel group decodes to. A group is six or eight hexadecimal digits: red,
/// green, blue and, in the longer form, alpha. The shorter form is fully opaque.
/// Anything else is malformed.
pub open spec fn group_pixel(group: Seq<u8>) -> Result<(u8, u8, u8, u8), CodecError> {
    if (group.len() == 6 || group.len() == 8) && is_hex_text(group) {
        let bytes = hex_bytes(group);
        Ok((bytes[0], bytes[1], bytes[2], if group.len() == 8 { bytes[3] } else { 255u8 }))
    } else {
        Err(CodecError::MalformedHex)
    }
}

/// The upper-case digit for `nibble`.
pub fn digit_of(nibble: u8) -> (digit: u8)
    requires
        nibble < 16,
    ensures
        digit == hex_digit(nibble),
        hex_value(digit) == Some(nibble),
{
    if nibble < 10 {
        0x30 + nibble
    } else {
        0x37 + nibble
    }
}

/// The value of the digit `digit`, of either case.
pub fn value_of(digit: u8) -> (value: Option<u8>)
    ensures
        value == hex_value(digit),
        value matches Some(v) ==> v < 16,
{
    if 0x30 <= digit && digit <= 0x39 {
        Some(digit - 0x30)
    } else if 0x41 <= digit && digit <= 0x46 {
        Some(digit - 0x37)
    } else if 0x61 <= digit && digit <= 0x66 {
        Some(digit - 0x57)
    } else {
        None
    }
}

/// Reads one byte from a pair of digits.
pub fn decode_pair(high: u8, low: u8) -> (byte: Result<u8, CodecError>)
    ensures
        byte == match pair_value(high, low) {
            Some(b) => Ok::<u8, CodecError>(b),
            None => Err(CodecError::MalformedHex),
        },
{
    match (value_of(high), value_of(low)) {
        (Some(h), Some(l)) => Ok(16 * h + l),
        _ => Err(CodecError::MalformedHex),
    }
}

/// Writes `channels` as text: two upper-case digits for each byte, in order, with
/// nothing between them.
pub fn encode_channels(channels: &[u8]) -> (text: Vec<u8>)
    ensures
        text@ == hex_text(channels@),
{
    let mut text: Vec<u8> = Vec::new();
    let mut i: usize = 0;
    while i < channels.len()
        invariant
            i <= channels@.len(),
            text@ == hex_text(channels@.take(i as int)),
        decreases channels@.len() - i,
    {
        let byte = channels[i];
        text.push(digit_of(byte / 16));
        text.push(digit_of(byte % 16));
        i = i + 1;
        assert(text@ =~= hex_text(channels@.take(i as int)));
    }
    assert(channels@.take(i as int) =~= channels@);
    text
}

/// Reads one pixel from a group of six or eight digits.
pub fn decode_group(group: &[u8]) -> (pixel: Result<(u8, u8, u8, u8), CodecError>)
    ensures
        pixel == group_pixel(group@),
{
    let n = group.len();
    if n != 6 && n != 8 {
        return Err(CodecError::MalformedHex);
    }
    let mut bytes: [u8; 4] = [0, 0, 0, 255];
    let mut k: usize = 0;
    while k < n / 2
        invariant
            n == group@.len(),
            n == 6 || n == 8,
            k <= n / 2,
            forall|j: int| 0 <= j < 2 * k ==> (#[trigger] hex_value(group@[j])) is Some,
            forall|j: int| 0 <= j < k ==> bytes@[j] == hex_bytes(group@)[j],
            k <= 3 ==> bytes@[3] == 255,
        decreases n / 2 - k,
    {
        match decode_pair(group[2 * k], group[2 * k + 1]) {
            Ok(b) => {
                bytes[k] = b;
            },
            Err(e) => {
                return Err(e);
            },
        }
        k = k + 1;
    }
    Ok((bytes[0], bytes[1], bytes[2], bytes[3]))
}

/// `digit` with a lower-case ASCII letter made upper case, and any other byte as it
/// is.
pub open spec fn ascii_upper(digit: u8) -> u8 {
    if 0x61 <= digit <= 0x7a {
        (digit - 0x20) as u8
    } else {
        digit
    }
}

/// `text` with every lower-case ASCII letter made upper case.
pub open spec fn upper_text(text: Seq<u8>) -> Seq<u8> {
    Seq::new(text.len(), |i: int| ascii_upper(text[i]))
}

/// Case does not matter when reading: a group decodes to the same pixel, or fails
/// in the same way, as the group with its letters made upper case.
pub proof fn lemma_group_ignores_case(group: Seq<u8>)
    ensures
        group_pixel(upper_text(group)) == group_pixel(group),
{
    let upper = upper_text(group);
    assert forall|i: int| 0 <= i < group.len() implies hex_value(upper[i]) == hex_value(
        group[i],
    ) by {}
    if is_hex_text(group) {
        assert forall|i: int| 0 <= i < upper.len() implies (#[trigger] hex_value(
            upper[i],
        )) is Some by {
            assert(hex_value(group[i]) is Some);
        }
    } else {
        let i = choose|i: int| 0 <= i < group.len() && !((#[trigger] hex_value(group[i])) is Some);
        assert(!(hex_value(upper[i]) is Some));
    }
    if (group.len() == 6 || group.len() == 8) && is_hex_text(group) {
        assert(hex_bytes(upper) =~= hex_bytes(group));
    }
}

/// Writing then reading gives the bytes back: the text of a channel sequence is
/// made of upper-case hexadecimal digits only, two for each byte, and stands for
/// that sequence.
pub proof fn lemma_hex_round_trip(channels: Seq<u8>)
    ensures
        hex_text(channels).len() == 2 * channels.len(),
        is_hex_text(hex_text(channels)),
        hex_bytes(hex_text(channels)) == channels,
        upper_text(hex_text(channels)) == hex_text(channels),
        forall|i: int|
            0 <= i < hex_text(channels).len() ==> 0x30 <= #[trigger] hex_text(channels)[i] <= 0x46,
{
    let text = hex_text(channels);
    assert forall|i: int| 0 <= i < text.len() implies (#[trigger] hex_value(text[i])) is Some
        && 0x30 <= text[i] <= 0x46 && ascii_upper(text[i]) == text[i] by {
        let byte = channels[i / 2];
        assert(byte / 16 < 16 && byte % 16 < 16);
    }
    assert forall|i: int| 0 <= i < channels.len() implies hex_bytes(text)[i] == channels[i] by {
        let byte = channels[i];
        assert((2 * i) / 2 == i && (2 * i + 1) / 2 == i);
        assert((2 * i) % 2 == 0 && (2 * i + 1) % 2 == 1);
        assert(text[2 * i] == hex_digit(byte / 16));
        assert(text[2 * i + 1] == hex_digit(byte % 16));
        assert(hex_value(hex_digit(byte / 16)) == Some(byte / 16));
        assert(hex_value(hex_digit(byte % 16)) == Some(byte % 16));
        assert(16 * (byte / 16) + byte % 16 == byte);
    }
    assert(hex_bytes(text) =~= channels);
    assert(upper_text(text) =~= text);
}

/// Alpha default: a group of six hexadecimal digits decodes to a fully opaque
/// pixel whose red, green and blue are its three pairs.
pub proof fn lemma_six_digits_are_opaque(group: Seq<u8>)
    requires
        group.len() == 6,
        is_hex_text(group),
    ensures
        group_pixel(group) == Ok::<(u8, u8, u8, u8), CodecError>(
            (
                pair_value(group[0], group[1]).unwrap(),
                pair_value(group[2], group[3]).unwrap(),
                pair_value(group[4], group[5]).unwrap(),
                255u8,
            ),
        ),
{
    assert(hex_value(group[0]) is Some && hex_value(group[1]) is Some);
    assert(hex_value(group[2]) is Some && hex_value(group[3]) is Some);
    assert(hex_value(group[4]) is Some && hex_value(group[5]) is Some);
}

/// Malformed hex rejection: a group that holds a byte which is no hexadecimal
/// digit decodes to no pixel at all, whatever its other bytes are.
pub proof fn lemma_bad_digit_rejects_group(group: Seq<u8>, at: int)
    requires
        0 <= at < group.len(),
        hex_value(group[at]) is None,
    ensures
        group_pixel(group) == Err::<(u8, u8, u8, u8), CodecError>(CodecError::MalformedHex),
{
}

} // verus!
