//! Percent-decoding of URI components.

use vstd::prelude::*;
use vstd::string::*;
use vstd::utf8::{
    decode_utf8, encode_scalar, encode_utf8, encode_utf8_decode_utf8, encode_utf8_valid_utf8,
    is_scalar, valid_utf8,
};

use crate::error::{Error, ErrorView, UrlError, UrlErrorView};

verus! {

/// The value of the byte `b` as an ASCII hexadecimal digit, in either case.
pub open spec fn hex_nibble(b: u8) -> Option<u8> {
    if 0x30 <= b <= 0x39 {
        Some((b - 0x30) as u8)
    } else if 0x61 <= b <= 0x66 {
        Some((b - 0x61 + 10) as u8)
    } else if 0x41 <= b <= 0x46 {
        Some((b - 0x41 + 10) as u8)
    } else {
        None
    }
}

/// Whether `bytes` begins with an escape: `%` and two hexadecimal digits.
pub open spec fn starts_with_escape(bytes: Seq<u8>) -> bool {
    bytes.len() >= 3 && bytes[0] == 0x25 && hex_nibble(bytes[1]) is Some && hex_nibble(
        bytes[2],
    ) is Some
}

/// The bytes that `bytes` stands for: each escape is replaced by the byte
/// that its two digits write, and every other byte stands for itself, a
/// `%` that begins no escape included.
pub open spec fn percent_decoded(bytes: Seq<u8>) -> Seq<u8>
    decreases bytes.len(),
{
    if bytes.len() == 0 {
        bytes
    } else if starts_with_escape(bytes) {
        seq![(hex_nibble(bytes[1])->0 * 16 + hex_nibble(bytes[2])->0) as u8] + percent_decoded(
            bytes.skip(3),
        )
    } else {
        seq![bytes[0]] + percent_decoded(bytes.skip(1))
    }
}

/// The text that `text` stands for once its escapes are decoded, if the
/// decoded bytes are UTF-8.
pub open spec fn depercent_spec(text: Seq<char>) -> Option<Seq<char>> {
    let bytes = percent_decoded(encode_utf8(text));
    if valid_utf8(bytes) {
        Some(decode_utf8(bytes))
    } else {
        None
    }
}

#[verifier::external_type_specification]
#[verifier::external_body]
pub struct ExUtf8Error(core::str::Utf8Error);

/// Calls `percent_encoding::percent_decode` on the bytes of `text` and
/// `decode_utf8` on what it returns.
///
/// Trusted: the result is `Ok` exactly when the percent-decoded bytes are
/// well-formed UTF-8, and then holds the text that those bytes encode.
#[verifier::external_body]
fn percent_decode_utf8(text: &str) -> (decoded: Result<String, core::str::Utf8Error>)
    ensures
        decoded is Ok <==> valid_utf8(percent_decoded(text.spec_bytes())),
        decoded matches Ok(s) ==> s@ == decode_utf8(percent_decoded(text.spec_bytes())),
{
    match percent_encoding::percent_decode(text.as_bytes()).decode_utf8() {
        Ok(s) => Ok(s.into_owned()),
        Err(e) => Err(e),
    }
}

/// Decodes the escapes of one URI component.
///
/// Fails with [`UrlError::PercentDecode`] exactly when the decoded bytes are
/// not UTF-8.
pub fn depercent(text: &str) -> (decoded: Result<String, Error>)
    ensures
        match decoded {
            Ok(s) => depercent_spec(text@) == Some(s@),
            Err(e) => depercent_spec(text@) is None && e@ == ErrorView::UrlParsing(
                UrlErrorView::PercentDecode,
            ),
        },
{
    match percent_decode_utf8(text) {
        Ok(s) => Ok(s),
        Err(_) => Err(Error::UrlParsing(UrlError::PercentDecode)),
    }
}

/// Only the character `%` has the byte `%` in its UTF-8 encoding.
proof fn lemma_percent_byte_is_percent_char(c: u32)
    requires
        is_scalar(c),
        c != 0x25,
    ensures
        forall|i: int| 0 <= i < encode_scalar(c).len() ==> encode_scalar(c)[i] != 0x25,
{
    assert(c <= 0x7f ==> (c & 0x7F) as u8 != 0x25u8) by (bit_vector)
        requires
            c != 0x25,
    ;
    assert((0xC0u8 | ((c >> 6) & 0x1F) as u8) != 0x25u8) by (bit_vector);
    assert((0xE0u8 | ((c >> 12) & 0x0F) as u8) != 0x25u8) by (bit_vector);
    assert((0xF0u8 | ((c >> 18) & 0x7) as u8) != 0x25u8) by (bit_vector);
    assert((0x80u8 | (c & 0x3F) as u8) != 0x25u8) by (bit_vector);
    assert((0x80u8 | ((c >> 6) & 0x3F) as u8) != 0x25u8) by (bit_vector);
    assert((0x80u8 | ((c >> 12) & 0x3F) as u8) != 0x25u8) by (bit_vector);
}

/// Text without `%` is encoded without the byte `%`.
proof fn lemma_encoding_without_percent(text: Seq<char>)
    requires
        forall|i: int| 0 <= i < text.len() ==> text[i] != '%',
    ensures
        forall|i: int| 0 <= i < encode_utf8(text).len() ==> encode_utf8(text)[i] != 0x25,
    decreases text.len(),
{
    if text.len() > 0 {
        let first = text[0] as u32;
        assert(text[0] != '%');
        vstd::utf8::char_is_scalar(text[0]);
        if first == 0x25 {
            vstd::utf8::char_u32_cast(text[0], first);
            vstd::utf8::char_u32_cast('%', first);
        }
        lemma_percent_byte_is_percent_char(first);
        let rest = text.drop_first();
        assert forall|i: int| 0 <= i < rest.len() implies rest[i] != '%' by {
            assert(rest[i] == text[i + 1]);
        }
        lemma_encoding_without_percent(rest);
        let head = encode_scalar(first);
        let tail = encode_utf8(rest);
        assert(encode_utf8(text) == head + tail);
        assert forall|i: int| 0 <= i < encode_utf8(text).len() implies encode_utf8(text)[i]
            != 0x25 by {
            if i < head.len() {
                assert(encode_utf8(text)[i] == head[i]);
            } else {
                assert(encode_utf8(text)[i] == tail[i - head.len()]);
            }
        }
    }
}

/// Bytes among which there is no `%` stand for themselves.
pub proof fn lemma_bytes_without_percent_are_kept(bytes: Seq<u8>)
    requires
        forall|i: int| 0 <= i < bytes.len() ==> bytes[i] != 0x25,
    ensures
        percent_decoded(bytes) == bytes,
    decreases bytes.len(),
{
    if bytes.len() > 0 {
        let rest = bytes.skip(1);
        assert forall|i: int| 0 <= i < rest.len() implies rest[i] != 0x25 by {
            assert(rest[i] == bytes[i + 1]);
        }
        lemma_bytes_without_percent_are_kept(rest);
        assert(seq![bytes[0]] + rest =~= bytes);
    }
}

/// Text that holds no `%` decodes, and to itself.
pub proof fn lemma_text_without_percent_is_kept(text: Seq<char>)
    requires
        forall|i: int| 0 <= i < text.len() ==> text[i] != '%',
    ensures
        depercent_spec(text) == Some(text),
{
    lemma_encoding_without_percent(text);
    lemma_bytes_without_percent_are_kept(encode_utf8(text));
    encode_utf8_valid_utf8(text);
    encode_utf8_decode_utf8(text);
}

/// Decoding never makes the bytes longer, and keeps their number only if
/// they hold no escape at all.
pub proof fn lemma_decoding_does_not_lengthen(bytes: Seq<u8>)
    ensures
        percent_decoded(bytes).len() <= bytes.len(),
        percent_decoded(bytes).len() == bytes.len() ==> percent_decoded(bytes) == bytes,
    decreases bytes.len(),
{
    if bytes.len() > 0 {
        if starts_with_escape(bytes) {
            lemma_decoding_does_not_lengthen(bytes.skip(3));
        } else {
            lemma_decoding_does_not_lengthen(bytes.skip(1));
            if percent_decoded(bytes).len() == bytes.len() {
                assert(seq![bytes[0]] + bytes.skip(1) =~= bytes);
            }
        }
    }
}

} // verus!
