//! The path decoder: from the raw bytes of a request path to the text that
//! they stand for.
//!
//! Percent-escapes are resolved, and what comes out is read as UTF-8, with the
//! replacement character in place of every ill-formed sequence. Nothing is
//! filtered here: `..` passes through, since only the filesystem can say where
//! a path leads.

use crate::bytes::contains_byte;
use crate::bytes::text_model;
use vstd::prelude::*;
use vstd::slice::slice_to_vec;
use vstd::utf8::char_is_scalar;
use vstd::utf8::decode_utf8;
use vstd::utf8::decode_utf8_encode_utf8;
use vstd::utf8::encode_scalar;
use vstd::utf8::encode_utf8;
use vstd::utf8::has_width_1_encoding;
use vstd::utf8::has_width_2_encoding;
use vstd::utf8::has_width_3_encoding;
use vstd::utf8::valid_utf8;

verus! {

/// The byte `%`, which opens an escape.
pub const PERCENT: u8 = 0x25;

/// The value of a hexadecimal digit, in either case.
pub open spec fn hex_value(byte: u8) -> Option<u8> {
    if 0x30 <= byte <= 0x39 {
        Some((byte - 0x30) as u8)
    } else if 0x41 <= byte <= 0x46 {
        Some((byte - 0x41 + 10) as u8)
    } else if 0x61 <= byte <= 0x66 {
        Some((byte - 0x61 + 10) as u8)
    } else {
        None
    }
}

/// The bytes begin with an escape: `%` and two hexadecimal digits.
pub open spec fn begins_with_escape(bytes: Seq<u8>) -> bool {
    &&& bytes.len() >= 3
    &&& bytes[0] == PERCENT
    &&& hex_value(bytes[1]) is Some
    &&& hex_value(bytes[2]) is Some
}

/// The byte that an escape stands for.
pub open spec fn escape_value(bytes: Seq<u8>) -> u8
    recommends
        begins_with_escape(bytes),
{
    (hex_value(bytes[1]).unwrap() * 16 + hex_value(bytes[2]).unwrap()) as u8
}

/// Percent-decoding: every escape becomes the byte it stands for, from left to
/// right; a `%` that opens no escape stays, as does every other byte.
pub open spec fn percent_decoded(bytes: Seq<u8>) -> Seq<u8>
    decreases bytes.len(),
{
    if bytes.len() == 0 {
        seq![]
    } else if begins_with_escape(bytes) {
        seq![escape_value(bytes)] + percent_decoded(bytes.subrange(3, bytes.len() as int))
    } else {
        seq![bytes[0]] + percent_decoded(bytes.subrange(1, bytes.len() as int))
    }
}

/// The text that `String::from_utf8_lossy` reads from the given bytes.
pub uninterp spec fn utf8_lossy(bytes: Seq<u8>) -> Seq<char>;

/// The text that the raw bytes of a request path stand for: their escapes
/// resolved, and the result read as UTF-8. There is none where a zero byte
/// comes out of the escapes, or a NUL character out of the reading.
pub open spec fn decoded_path(raw: Seq<u8>) -> Option<Seq<char>> {
    let bytes = percent_decoded(raw);
    let text = utf8_lossy(bytes);
    if bytes.contains(0u8) || text.contains('\0') {
        None
    } else {
        Some(text)
    }
}

/// Calls `percent_encoding::percent_decode` and collects the bytes that its
/// iterator yields. The contract is the rule of that iterator: `%` followed
/// by two hexadecimal digits yields the byte that they spell and passes all
/// three, any other byte yields itself.
#[verifier::external_body]
fn percent_decode(input: &[u8]) -> (out: Vec<u8>)
    ensures
        out@ == percent_decoded(input@),
{
    percent_encoding::percent_decode(input).collect()
}

/// Calls `String::from_utf8_lossy`. The contract names the result, and states
/// one thing of it: well-formed UTF-8 is read as it stands.
#[verifier::external_body]
pub(crate) fn string_from_utf8_lossy(bytes: &[u8]) -> (out: String)
    ensures
        out@ == utf8_lossy(bytes@),
        valid_utf8(bytes@) ==> out@ == decode_utf8(bytes@),
{
    String::from_utf8_lossy(bytes).into_owned()
}

/// Calls `String::from_utf8`, which reads bytes as text exactly when they are
/// well-formed UTF-8.
#[verifier::external_body]
pub(crate) fn string_from_utf8(bytes: &[u8]) -> (out: Option<String>)
    ensures
        out is Some <==> valid_utf8(bytes@),
        out is Some ==> out.unwrap()@ == decode_utf8(bytes@),
{
    String::from_utf8(bytes.to_vec()).ok()
}

/// Bytes without `%` hold no escape, so decoding leaves them as they are.
pub proof fn lemma_no_percent_unchanged(bytes: Seq<u8>)
    requires
        !bytes.contains(PERCENT),
    ensures
        percent_decoded(bytes) == bytes,
    decreases bytes.len(),
{
    if bytes.len() > 0 {
        let tail = bytes.subrange(1, bytes.len() as int);
        assert(bytes[0] != PERCENT);
        assert forall|k: int| 0 <= k < tail.len() implies tail[k] != PERCENT by {
            assert(tail[k] == bytes[k + 1]);
        }
        lemma_no_percent_unchanged(tail);
        assert(seq![bytes[0]] + tail =~= bytes);
    } else {
        assert(bytes =~= seq![]);
    }
}

/// An escape is decoded wherever it stands: no earlier escape can swallow its
/// `%`, since `%` is no hexadecimal digit.
pub proof fn lemma_escape_is_decoded(bytes: Seq<u8>, at: int)
    requires
        0 <= at <= bytes.len(),
        begins_with_escape(bytes.subrange(at, bytes.len() as int)),
    ensures
        percent_decoded(bytes).contains(escape_value(bytes.subrange(at, bytes.len() as int))),
    decreases bytes.len(),
{
    let len = bytes.len() as int;
    let found = bytes.subrange(at, len);
    let value = escape_value(found);
    assert(found[0] == bytes[at] && found[1] == bytes[at + 1] && found[2] == bytes[at + 2]);
    if at == 0 {
        assert(found =~= bytes);
        assert(percent_decoded(bytes)[0] == value);
    } else {
        let step: int = if begins_with_escape(bytes) { 3 } else { 1 };
        assert(at >= step) by {
            if begins_with_escape(bytes) {
                assert(bytes[1] != PERCENT && bytes[2] != PERCENT);
            }
        }
        let tail = bytes.subrange(step, len);
        assert(tail.subrange(at - step, tail.len() as int) =~= found);
        lemma_escape_is_decoded(tail, at - step);
        let k = choose|k: int| 0 <= k < percent_decoded(tail).len() && percent_decoded(tail)[k] == value;
        assert(percent_decoded(bytes)[k + 1] == value);
    }
}

proof fn lemma_marked_byte_is_high(x: u8)
    by (bit_vector)
    ensures
        0x80u8 | x >= 0x80u8,
        0xC0u8 | x >= 0x80u8,
        0xE0u8 | x >= 0x80u8,
        0xF0u8 | x >= 0x80u8,
{
}

proof fn lemma_low_scalar_byte(v: u32)
    by (bit_vector)
    requires
        v <= 0x7F,
    ensures
        (v & 0x7F) as u8 == v as u8,
        (v & 0x7F) == v,
{
}

/// The encoding of one character holds an ASCII byte only where the
/// character is that byte.
proof fn lemma_ascii_byte_in_scalar(c: char, byte: u8)
    requires
        byte < 0x80,
    ensures
        encode_scalar(c as u32).contains(byte) <==> c == byte as char,
{
    let v = c as u32;
    let enc = encode_scalar(v);
    char_is_scalar(c);
    if has_width_1_encoding(v) {
        lemma_low_scalar_byte(v);
        assert(enc.len() == 1);
        assert(enc[0] == v as u8);
        if c == byte as char {
            assert(enc[0] == byte);
        }
    } else {
        assert(c != byte as char);
        if has_width_2_encoding(v) {
            lemma_marked_byte_is_high(((v >> 6) & 0x1F) as u8);
            lemma_marked_byte_is_high((v & 0x3F) as u8);
            assert(enc.len() == 2);
            assert(forall|k: int| 0 <= k < enc.len() ==> enc[k] >= 0x80);
        } else if has_width_3_encoding(v) {
            lemma_marked_byte_is_high(((v >> 12) & 0x0F) as u8);
            lemma_marked_byte_is_high(((v >> 6) & 0x3F) as u8);
            lemma_marked_byte_is_high((v & 0x3F) as u8);
            assert(enc.len() == 3);
            assert(forall|k: int| 0 <= k < enc.len() ==> enc[k] >= 0x80);
        } else {
            lemma_marked_byte_is_high(((v >> 18) & 0x7) as u8);
            lemma_marked_byte_is_high(((v >> 12) & 0x3F) as u8);
            lemma_marked_byte_is_high(((v >> 6) & 0x3F) as u8);
            lemma_marked_byte_is_high((v & 0x3F) as u8);
            assert(enc.len() == 4);
            assert(forall|k: int| 0 <= k < enc.len() ==> enc[k] >= 0x80);
        }
    }
}

/// An ASCII byte occurs in the UTF-8 encoding of a text exactly where the
/// text holds that character: no other character is encoded with it.
pub proof fn lemma_ascii_byte_in_encoding(text: Seq<char>, byte: u8)
    requires
        byte < 0x80,
    ensures
        encode_utf8(text).contains(byte) <==> text.contains(byte as char),
    decreases text.len(),
{
    if text.len() > 0 {
        let head = encode_scalar(text[0] as u32);
        let rest = text.drop_first();
        let tail = encode_utf8(rest);
        lemma_ascii_byte_in_scalar(text[0], byte);
        lemma_ascii_byte_in_encoding(rest, byte);
        assert(encode_utf8(text) == head + tail);
        if head.contains(byte) {
            let k = choose|k: int| 0 <= k < head.len() && head[k] == byte;
            assert((head + tail)[k] == byte);
            assert(text[0] == byte as char);
        }
        if tail.contains(byte) {
            let k = choose|k: int| 0 <= k < tail.len() && tail[k] == byte;
            assert((head + tail)[head.len() + k] == byte);
            let j = choose|j: int| 0 <= j < rest.len() && rest[j] == byte as char;
            assert(text[j + 1] == byte as char);
        }
        if (head + tail).contains(byte) {
            let k = choose|k: int| 0 <= k < (head + tail).len() && (head + tail)[k] == byte;
            if k < head.len() {
                assert(head[k] == byte);
            } else {
                assert(tail[k - head.len()] == byte);
            }
        }
        if text.contains(byte as char) {
            let j = choose|j: int| 0 <= j < text.len() && text[j] == byte as char;
            if j > 0 {
                assert(rest[j - 1] == byte as char);
            }
        }
    }
}

/// Whether a text holds the NUL character.
pub fn contains_nul(text: &str) -> (out: bool)
    ensures
        out == text@.contains('\0'),
{
    proof {
        lemma_ascii_byte_in_encoding(text@, 0u8);
    }
    contains_byte(text.as_bytes(), 0u8)
}

/// Resolves the escapes in the raw bytes of a request path. Bytes without
/// `%` skip the decoder, which would hand them back unchanged.
pub fn resolve_escapes(input: &[u8]) -> (out: Vec<u8>)
    ensures
        out@ == percent_decoded(input@),
        !input@.contains(PERCENT) ==> out@ == input@,
{
    if contains_byte(input, PERCENT) {
        percent_decode(input)
    } else {
        proof {
            lemma_no_percent_unchanged(input@);
        }
        slice_to_vec(input)
    }
}

/// Well-formed UTF-8 holds a zero byte exactly where the text that it spells
/// holds a NUL character.
pub proof fn lemma_nul_in_well_formed(bytes: Seq<u8>)
    requires
        valid_utf8(bytes),
    ensures
        decode_utf8(bytes).contains('\0') <==> bytes.contains(0u8),
{
    decode_utf8_encode_utf8(bytes);
    lemma_ascii_byte_in_encoding(decode_utf8(bytes), 0u8);
}

/// The path decoder: resolves the escapes in the raw bytes of a request path
/// and reads the result as text. `None` is the rejection of a path that
/// decodes to something with a NUL in it.
pub fn decode_path(input: &[u8]) -> (out: Option<String>)
    ensures
        text_model(out) == decoded_path(input@),
        valid_utf8(percent_decoded(input@)) ==> text_model(out) == (if percent_decoded(
            input@,
        ).contains(0u8) {
            None
        } else {
            Some(decode_utf8(percent_decoded(input@)))
        }),
{
    let bytes = resolve_escapes(input);
    if contains_byte(bytes.as_slice(), 0u8) {
        return None;
    }
    let text = string_from_utf8_lossy(bytes.as_slice());
    proof {
        if valid_utf8(bytes@) {
            lemma_nul_in_well_formed(bytes@);
        }
    }
    if contains_nul(text.as_str()) {
        None
    } else {
        Some(text)
    }
}

} // verus!
