//! Percent-decoding of a field's value, and what the decoded bytes say as text.

use vstd::prelude::*;
use vstd::string::*;
use vstd::utf8::*;

verus! {

/// The value of an ASCII hexadecimal digit, in either case.
pub open spec fn hex_digit_value(byte: u8) -> Option<u8> {
    if 0x30 <= byte <= 0x39 {
        Some((byte - 0x30) as u8)
    } else if 0x41 <= byte <= 0x46 {
        Some((byte - 0x41 + 10) as u8)
    } else if 0x61 <= byte <= 0x66 {
        Some((byte - 0x61 + 10) as u8)
    } else {
        None
    }
}

/// Whether `bytes` begins with a percent sign and two hexadecimal digits.
pub open spec fn starts_with_escape(bytes: Seq<u8>) -> bool {
    &&& bytes.len() >= 3
    &&& bytes[0] == 0x25
    &&& hex_digit_value(bytes[1]) is Some
    &&& hex_digit_value(bytes[2]) is Some
}

/// The bytes that `bytes` stands for: each percent sign that two hexadecimal
/// digits follow gives the byte they spell, and every other byte gives itself.
pub open spec fn percent_decoded(bytes: Seq<u8>) -> Seq<u8>
    decreases bytes.len(),
{
    if bytes.len() == 0 {
        Seq::empty()
    } else if starts_with_escape(bytes) {
        seq![
            (hex_digit_value(bytes[1])->0 * 16 + hex_digit_value(bytes[2])->0) as u8,
        ] + percent_decoded(bytes.skip(3))
    } else {
        seq![bytes[0]] + percent_decoded(bytes.skip(1))
    }
}

/// The text that a raw field value stands for: its UTF-8 bytes are
/// percent-decoded, and the result is read as UTF-8 again. `None` where the
/// decoded bytes are no UTF-8.
pub open spec fn decoded_text(raw: Seq<char>) -> Option<Seq<char>> {
    let bytes = percent_decoded(encode_utf8(raw));
    if valid_utf8(bytes) {
        Some(decode_utf8(bytes))
    } else {
        None
    }
}

/// Bytes without a percent sign stand for themselves.
pub proof fn lemma_plain_bytes_stand_for_themselves(bytes: Seq<u8>)
    requires
        !bytes.contains(0x25u8),
    ensures
        percent_decoded(bytes) == bytes,
    decreases bytes.len(),
{
    if bytes.len() > 0 {
        assert(bytes[0] != 0x25u8);
        let rest = bytes.skip(1);
        assert forall|i: int| 0 <= i < rest.len() implies rest[i] != 0x25u8 by {
            assert(rest[i] == bytes[i + 1]);
        }
        lemma_plain_bytes_stand_for_themselves(rest);
        assert(seq![bytes[0]] + rest =~= bytes);
    }
}

/// An escape gives the byte that its two digits spell, and decoding goes on
/// behind it.
pub proof fn lemma_escape_gives_its_byte(high: u8, low: u8, rest: Seq<u8>)
    requires
        hex_digit_value(high) is Some,
        hex_digit_value(low) is Some,
    ensures
        percent_decoded(seq![0x25u8, high, low] + rest) == seq![
            (hex_digit_value(high)->0 * 16 + hex_digit_value(low)->0) as u8,
        ] + percent_decoded(rest),
{
    let bytes = seq![0x25u8, high, low] + rest;
    assert(starts_with_escape(bytes));
    assert(bytes.skip(3) =~= rest);
}

/// No byte of the encoding of one character is a percent sign, unless the
/// character is one.
proof fn lemma_scalar_bytes(scalar: u32)
    requires
        is_scalar(scalar),
        scalar != 0x25,
    ensures
        forall|i: int| 0 <= i < encode_scalar(scalar).len() ==> encode_scalar(scalar)[i] != 0x25u8,
{
    assert(has_width_1_encoding(scalar) ==> leading_byte_width_1(scalar) != 0x25u8)
        by (bit_vector)
        requires
            scalar != 0x25,
    ;
    assert(leading_byte_width_2(scalar) != 0x25u8) by (bit_vector);
    assert(leading_byte_width_3(scalar) != 0x25u8) by (bit_vector);
    assert(leading_byte_width_4(scalar) != 0x25u8) by (bit_vector);
    assert(last_continuation_byte(scalar) != 0x25u8) by (bit_vector);
    assert(second_last_continuation_byte(scalar) != 0x25u8) by (bit_vector);
    assert(third_last_continuation_byte(scalar) != 0x25u8) by (bit_vector);
}

/// The encoding of text without a percent sign holds no percent byte.
pub proof fn lemma_plain_text_has_plain_bytes(text: Seq<char>)
    requires
        !text.contains('%'),
    ensures
        !encode_utf8(text).contains(0x25u8),
    decreases text.len(),
{
    if text.len() > 0 {
        let rest = text.drop_first();
        assert forall|i: int| 0 <= i < rest.len() implies rest[i] != '%' by {
            assert(rest[i] == text[i + 1]);
        }
        lemma_plain_text_has_plain_bytes(rest);
        let first = text[0] as u32;
        assert(text.contains(text[0]));
        char_is_scalar(text[0]);
        assert(first != 0x25) by {
            if first == 0x25 {
                char_u32_cast(text[0], first);
                char_u32_cast('%', 0x25u32);
            }
        }
        lemma_scalar_bytes(first);
        let head = encode_scalar(first);
        let tail = encode_utf8(rest);
        assert forall|i: int| 0 <= i < (head + tail).len() implies (head + tail)[i] != 0x25u8 by {
            if i >= head.len() {
                assert(tail.contains(tail[i - head.len()]));
            }
        }
    }
}

/// A raw value without a percent sign stands for itself.
pub proof fn lemma_plain_value_stands_for_itself(raw: Seq<char>)
    requires
        !raw.contains('%'),
    ensures
        decoded_text(raw) == Some(raw),
{
    lemma_plain_text_has_plain_bytes(raw);
    lemma_plain_bytes_stand_for_themselves(encode_utf8(raw));
    encode_utf8_valid_utf8(raw);
    encode_utf8_decode_utf8(raw);
}

#[verifier::external_type_specification]
#[verifier::external_body]
pub struct ExUtf8Error(core::str::Utf8Error);

/// Percent-decodes `raw` and reads the bytes as UTF-8.
///
/// Trusted: the body calls `percent_encoding::percent_decode_str` and
/// `PercentDecode::decode_utf8` on what it returns. The contract claims that
/// the decoder replaces exactly the `%` signs that two hexadecimal digits
/// follow, that it succeeds exactly where the decoded bytes are well-formed
/// UTF-8, and that the text it gives is those bytes read as UTF-8.
#[verifier::external_body]
pub(crate) fn percent_decode_utf8(raw: &str) -> (decoded: Result<String, core::str::Utf8Error>)
    ensures
        match decoded {
            Ok(text) => decoded_text(raw@) == Some(text@),
            Err(_) => decoded_text(raw@) is None,
        },
{
    match percent_encoding::percent_decode_str(raw).decode_utf8() {
        Ok(text) => Ok(text.into_owned()),
        Err(malformed) => Err(malformed),
    }
}

} // verus!
