//! The textual account identifier and the 64 bits of it that decide the shard.
//!
//! An identifier is written as 64 hexadecimal digits, which spell 32 bytes,
//! with an optional workchain marker `0:` in front. A text is modelled by its
//! UTF-8 bytes; every byte of a well-formed identifier is ASCII.

use crate::format::hex_char;
use vstd::prelude::*;
use vstd::slice::slice_subrange;
use vstd::utf8::{encode_utf8, is_ascii_chars, is_ascii_chars_encode_utf8};

verus! {

/// Number of bytes in an account identifier.
pub const IDENTIFIER_BYTES: usize = 32;

/// `hex::FromHexError`, the error of `hex::decode`. Nothing is said of what
/// an error holds.
#[verifier::external_type_specification]
#[verifier::external_body]
pub struct ExFromHexError(hex::FromHexError);

/// The number that the ASCII hexadecimal digit `c` stands for, in either case.
pub open spec fn hex_digit_value(c: u8) -> Option<u8> {
    if ('0' as u8) <= c <= ('9' as u8) {
        Some((c - ('0' as u8)) as u8)
    } else if ('a' as u8) <= c <= ('f' as u8) {
        Some((c - ('a' as u8) + 10) as u8)
    } else if ('A' as u8) <= c <= ('F' as u8) {
        Some((c - ('A' as u8) + 10) as u8)
    } else {
        None
    }
}

/// `text` is an even number of hexadecimal digits.
pub open spec fn is_hex_text(text: Seq<u8>) -> bool {
    &&& text.len() % 2 == 0
    &&& forall|i: int| 0 <= i < text.len() ==> hex_digit_value(#[trigger] text[i]) is Some
}

/// The bytes that the digits of `text` spell, two digits to a byte, the first one high.
pub open spec fn hex_bytes(text: Seq<u8>) -> Seq<u8> {
    Seq::new(
        text.len() / 2,
        |i: int|
            (16 * hex_digit_value(text[2 * i])->0 + hex_digit_value(text[2 * i + 1])->0) as u8,
    )
}

/// `text` starts with the workchain marker `0:`.
pub open spec fn has_workchain_marker(text: Seq<u8>) -> bool {
    text.len() >= 2 && text[0] == ('0' as u8) && text[1] == (':' as u8)
}

/// `text` without the workchain markers in front of it, however many there are.
pub open spec fn strip_workchain(text: Seq<u8>) -> Seq<u8>
    decreases text.len(),
{
    if has_workchain_marker(text) {
        strip_workchain(text.skip(2))
    } else {
        text
    }
}

/// The first eight bytes of `bytes` read as one big-endian number.
pub open spec fn top64(bytes: Seq<u8>) -> u64
    recommends
        bytes.len() >= 8,
{
    (bytes[0] * 0x0100_0000_0000_0000 + bytes[1] * 0x0001_0000_0000_0000 + bytes[2]
        * 0x0000_0100_0000_0000 + bytes[3] * 0x0000_0001_0000_0000 + bytes[4] * 0x0100_0000
        + bytes[5] * 0x0001_0000 + bytes[6] * 0x0100 + bytes[7]) as u64
}

/// The 64 bits that decide the shard of the account that `text` names, or
/// `None` where `text` is no identifier: where what follows the workchain
/// markers is not hexadecimal or does not spell exactly 32 bytes.
pub open spec fn identifier_top64(text: Seq<u8>) -> Option<u64> {
    let digits = strip_workchain(text);
    if is_hex_text(digits) && hex_bytes(digits).len() == IDENTIFIER_BYTES {
        Some(top64(hex_bytes(digits)))
    } else {
        None
    }
}

/// The 64 bits that decide the shard of the account that the text
/// `account_id` names, or `None` where it names none.
pub open spec fn account_top64(account_id: Seq<char>) -> Option<u64> {
    identifier_top64(encode_utf8(account_id))
}

/// `hex::decode` on a byte slice. It accepts the texts that are an even number
/// of hexadecimal digits, of either case, and returns the byte that each pair
/// of digits spells; for every other text it returns an error.
#[verifier::external_body]
fn hex_decode(text: &[u8]) -> (r: Result<Vec<u8>, hex::FromHexError>)
    ensures
        r is Ok <==> is_hex_text(text@),
        r matches Ok(bytes) ==> bytes@ == hex_bytes(text@),
{
    hex::decode(text)
}

/// Index at which the digits of `text` start, behind its workchain markers.
fn digits_start(text: &[u8]) -> (start: usize)
    ensures
        start <= text@.len(),
        text@.skip(start as int) == strip_workchain(text@),
{
    let mut start: usize = 0;
    assert(text@.skip(0) == text@);
    while text.len() - start >= 2 && text[start] == ('0' as u8) && text[start + 1] == (':' as u8)
        invariant
            start <= text@.len(),
            strip_workchain(text@.skip(start as int)) == strip_workchain(text@),
        decreases text@.len() - start,
    {
        assert(text@.skip(start as int).skip(2) == text@.skip(start + 2));
        start += 2;
    }
    start
}

/// Reads the textual account identifier `account_id` and returns the top 64
/// bits of the account's 256-bit number, `None` where the text is malformed.
pub fn extract_top64(account_id: &str) -> (r: Option<u64>)
    ensures
        r == account_top64(account_id@),
{
    let text = account_id.as_bytes();
    let start = digits_start(text);
    let digits = slice_subrange(text, start, text.len());
    match hex_decode(digits) {
        Err(_) => None,
        Ok(bytes) => {
            if bytes.len() != IDENTIFIER_BYTES {
                None
            } else {
                let b0 = bytes[0] as u64;
                let b1 = bytes[1] as u64;
                let b2 = bytes[2] as u64;
                let b3 = bytes[3] as u64;
                let b4 = bytes[4] as u64;
                let b5 = bytes[5] as u64;
                let b6 = bytes[6] as u64;
                let b7 = bytes[7] as u64;
                Some(
                    b0 * 0x0100_0000_0000_0000 + b1 * 0x0001_0000_0000_0000 + b2
                        * 0x0000_0100_0000_0000 + b3 * 0x0000_0001_0000_0000 + b4 * 0x0100_0000
                        + b5 * 0x0001_0000 + b6 * 0x0100 + b7,
                )
            }
        },
    }
}

/// `bytes` written as lowercase hexadecimal digits, two to a byte.
pub open spec fn lower_hex_text(bytes: Seq<u8>) -> Seq<char> {
    Seq::new(
        2 * bytes.len(),
        |i: int|
            hex_char(
                if i % 2 == 0 {
                    (bytes[i / 2] / 16) as nat
                } else {
                    (bytes[i / 2] % 16) as nat
                },
            ),
    )
}

/// The workchain marker `0:`.
pub open spec fn workchain_marker() -> Seq<char> {
    seq!['0', ':']
}

/// Reading back what was written: the lowercase hexadecimal text of any 32
/// bytes, with or without the workchain marker in front, is an identifier, and
/// its top 64 bits are the first eight of those bytes.
pub proof fn lemma_decode_round_trip(bytes: Seq<u8>)
    requires
        bytes.len() == IDENTIFIER_BYTES,
    ensures
        account_top64(lower_hex_text(bytes)) == Some(top64(bytes)),
        account_top64(workchain_marker() + lower_hex_text(bytes)) == Some(top64(bytes)),
{
    let text = lower_hex_text(bytes);
    let marked = workchain_marker() + text;
    assert(is_ascii_chars(text));
    assert(is_ascii_chars(marked));
    is_ascii_chars_encode_utf8(text);
    is_ascii_chars_encode_utf8(marked);
    let digits = encode_utf8(text);
    assert forall|i: int| 0 <= i < digits.len() implies hex_digit_value(#[trigger] digits[i])
        == Some(
        if i % 2 == 0 {
            bytes[i / 2] / 16
        } else {
            bytes[i / 2] % 16
        },
    ) by {
        assert(digits[i] == text[i] as u8);
    }
    assert(is_hex_text(digits));
    assert(hex_bytes(digits) =~= bytes);
    assert(hex_digit_value(digits[1]) is Some);
    assert(!has_workchain_marker(digits));
    assert(strip_workchain(digits) == digits);
    let raw = encode_utf8(marked);
    assert(raw[0] == marked[0] as u8 && raw[1] == marked[1] as u8);
    assert(has_workchain_marker(raw));
    assert forall|i: int| 0 <= i < digits.len() implies raw.skip(2)[i] == digits[i] by {
        assert(raw[i + 2] == marked[i + 2] as u8);
        assert(digits[i] == text[i] as u8);
    }
    assert(raw.skip(2) =~= digits);
    assert(strip_workchain(raw) == digits);
}

} // verus!
