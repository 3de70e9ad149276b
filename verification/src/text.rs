//! Text as bytes: what the standard library promises of the conversions
//! between strings and byte buffers, and why a run of ASCII is its own UTF-8.

use vstd::prelude::*;
use vstd::utf8::{
    decode_utf8, encode_utf8, encode_utf8_decode_utf8, encode_utf8_valid_utf8, is_ascii_chars,
    is_ascii_chars_encode_utf8, valid_utf8,
};
use std::string::FromUtf8Error;
use core::str::Utf8Error;

verus! {

/// `std::string::FromUtf8Error`, the error of `String::from_utf8`.
#[verifier::external_type_specification]
#[verifier::external_body]
pub struct ExFromUtf8Error(FromUtf8Error);

/// `core::str::Utf8Error`, the error of `core::str::from_utf8`.
#[verifier::external_type_specification]
#[verifier::external_body]
pub struct ExUtf8Error(Utf8Error);

/// `String::from_utf8` succeeds exactly on valid UTF-8, and the string it
/// makes is what the bytes spell.
pub assume_specification[ String::from_utf8 ](vec: Vec<u8>) -> (result: Result<
    String,
    FromUtf8Error,
>)
    ensures
        result is Ok <==> valid_utf8(vec@),
        result matches Ok(string) ==> string@ == decode_utf8(vec@),
;

/// `core::str::from_utf8` succeeds exactly on valid UTF-8, and the string
/// slice it gives is what the bytes spell.
pub assume_specification[ core::str::from_utf8 ](v: &[u8]) -> (result: Result<&str, Utf8Error>)
    ensures
        result is Ok <==> valid_utf8(v@),
        result matches Ok(string) ==> string@ == decode_utf8(v@),
;

/// `String::push` appends the character to the end of the string.
pub assume_specification[ String::push ](string: &mut String, ch: char)
    ensures
        final(string)@ == old(string)@.push(ch),
;

/// `String::into_bytes` gives the UTF-8 bytes of the string.
pub assume_specification[ String::into_bytes ](string: String) -> (bytes: Vec<u8>)
    ensures
        bytes@ == encode_utf8(string@),
;

/// Whether the number is a Unicode scalar: up to 0x10FFFF and no surrogate.
pub open spec fn is_scalar_value(value: u32) -> bool {
    value <= 0xD7FF || (0xE000 <= value && value <= 0x10FFFF)
}

/// `char::from_u32` gives the scalar of the number where the number is one,
/// and nothing where it is not.
pub assume_specification[ char::from_u32 ](i: u32) -> (scalar: Option<char>)
    ensures
        scalar == if is_scalar_value(i) {
            Some(i as char)
        } else {
            None::<char>
        },
;

/// The characters with the numbers of the bytes.
pub open spec fn bytes_as_chars(bytes: Seq<u8>) -> Seq<char> {
    Seq::new(bytes.len(), |i: int| bytes[i] as char)
}

/// The bytes with the numbers of the characters.
pub open spec fn chars_as_bytes(chars: Seq<char>) -> Seq<u8> {
    Seq::new(chars.len(), |i: int| chars[i] as u8)
}

/// Every byte is below 0x80.
pub open spec fn is_ascii_bytes(bytes: Seq<u8>) -> bool {
    forall|i: int| 0 <= i < bytes.len() ==> #[trigger] bytes[i] < 0x80
}

/// ASCII bytes are valid UTF-8, and spell the characters of their numbers.
pub proof fn lemma_ascii_bytes_are_utf8(bytes: Seq<u8>)
    requires
        is_ascii_bytes(bytes),
    ensures
        valid_utf8(bytes),
        decode_utf8(bytes) == bytes_as_chars(bytes),
        is_ascii_chars(bytes_as_chars(bytes)),
{
    let chars = bytes_as_chars(bytes);
    assert(is_ascii_chars(chars)) by {
        assert forall|i: int| 0 <= i < chars.len() implies '\0' <= #[trigger] chars[i]
            <= '\u{7f}' by {
            assert(bytes[i] < 0x80);
        }
    }
    is_ascii_chars_encode_utf8(chars);
    assert(encode_utf8(chars) =~= bytes) by {
        assert forall|i: int| 0 <= i < bytes.len() implies encode_utf8(chars)[i] == bytes[i] by {
            assert(chars[i] as u8 == encode_utf8(chars)[i]);
            assert(bytes[i] < 0x80);
        }
    }
    encode_utf8_valid_utf8(chars);
    encode_utf8_decode_utf8(chars);
}

/// The UTF-8 of ASCII characters is the bytes of their numbers.
pub proof fn lemma_ascii_chars_are_bytes(chars: Seq<char>)
    requires
        is_ascii_chars(chars),
    ensures
        encode_utf8(chars) == chars_as_bytes(chars),
        is_ascii_bytes(chars_as_bytes(chars)),
{
    is_ascii_chars_encode_utf8(chars);
    assert(encode_utf8(chars) =~= chars_as_bytes(chars));
    assert forall|i: int| 0 <= i < chars.len() implies #[trigger] chars_as_bytes(chars)[i]
        < 0x80 by {
        assert('\0' <= chars[i] <= '\u{7f}');
    }
}

} // verus!
