//! The character set of a body, and the text that the body stands for.

use vstd::prelude::*;
use vstd::string::*;
use vstd::utf8::{decode_utf8, encode_utf8, valid_utf8};
use crate::text::{find_char, trim, trimmed};

verus! {

/// The content type of a response that names none.
pub const DEFAULT_CONTENT_TYPE: &'static str = "text/plain";

/// The character set of a response that names none.
pub const DEFAULT_CHARACTER_SET: &'static str = "utf-8";

/// The character set that a `Content-Type` value names: what follows the
/// first `=` after the first `;`, trimmed. A value without a `;`, or without
/// a `=` after it, names none.
///
/// Only the first parameter is looked at: in `text/html; a=b; charset=x` the
/// character set found is `b; charset=x`.
pub open spec fn named_charset(content_type: Seq<char>) -> Option<Seq<char>> {
    match content_type.index_of_first(';') {
        None => None,
        Some(semi) => {
            let parameters = content_type.skip(semi + 1);
            match parameters.index_of_first('=') {
                None => None,
                Some(equal) => Some(trimmed(parameters.skip(equal + 1))),
            }
        },
    }
}

/// The character set of a response with the given `Content-Type` header:
/// the one it names, else `utf-8`.
pub open spec fn charset_of(header: Option<Seq<char>>) -> Seq<char> {
    match header {
        Some(content_type) => match named_charset(content_type) {
            Some(charset) => charset,
            None => DEFAULT_CHARACTER_SET@,
        },
        None => DEFAULT_CHARACTER_SET@,
    }
}

/// The view of an optional text.
pub open spec fn text_of(value: Option<&str>) -> Option<Seq<char>> {
    match value {
        Some(text) => Some(text@),
        None => None,
    }
}

/// Extracts the character set from a `Content-Type` header:
/// `text/plain; charset=iso8859-1` gives `iso8859-1`.
pub fn charset_from_content_type(header: Option<&str>) -> (r: &str)
    ensures
        r@ == charset_of(text_of(header)),
{
    let content_type = match header {
        Some(content_type) => content_type,
        None => {
            return DEFAULT_CHARACTER_SET;
        },
    };
    let semi = match find_char(content_type, ';') {
        Some(semi) => semi,
        None => {
            return DEFAULT_CHARACTER_SET;
        },
    };
    let length = content_type.unicode_len();
    let parameters = content_type.substring_char(semi + 1, length);
    let equal = match find_char(parameters, '=') {
        Some(equal) => equal,
        None => {
            return DEFAULT_CHARACTER_SET;
        },
    };
    let length = parameters.unicode_len();
    trim(parameters.substring_char(equal + 1, length))
}

/// The text that `encoding_rs` makes of `bytes` in the encoding that `label`
/// names, or `None` where the label names no encoding.
pub uninterp spec fn decoded_text(label: Seq<u8>, bytes: Seq<u8>) -> Option<Seq<char>>;

/// The bodies that are handed to the decoder. The decoder sizes its output
/// at up to three times its input and a little more, rounds that up to a
/// power of two, and may reserve as much again; a sixteenth of the address
/// space keeps all of that within bounds.
pub open spec fn decodable(bytes: Seq<u8>) -> bool {
    bytes.len() <= usize::MAX / 16
}

/// Whether bytes start with the byte order mark of UTF-8.
pub open spec fn has_utf8_bom(bytes: Seq<u8>) -> bool {
    bytes.len() >= 3 && bytes[0] == 0xEF && bytes[1] == 0xBB && bytes[2] == 0xBF
}

/// Bytes that are their own text in UTF-8: valid UTF-8 that does not start
/// with a byte order mark.
pub open spec fn plain_utf8(bytes: Seq<u8>) -> bool {
    valid_utf8(bytes) && !has_utf8_bom(bytes)
}

/// Looks the label up with `encoding_rs::Encoding::for_label` and decodes
/// the bytes with `Encoding::decode`, taking the text of its result.
///
/// The result is named, not described, but for two facts. `for_label` knows
/// the label `utf-8`. And `decode`, which removes a byte order mark and
/// replaces malformed sequences, hands back as they are bytes in UTF-8 that
/// have neither. `decode` panics where the size of its buffer overflows,
/// which the bound on the input rules out.
#[verifier::external_body]
fn decode_with_label(label: &[u8], bytes: &[u8]) -> (r: Option<String>)
    requires
        decodable(bytes@),
    ensures
        r is Some <==> decoded_text(label@, bytes@) is Some,
        r matches Some(text) ==> decoded_text(label@, bytes@) == Some(text@),
        label@ == encode_utf8(DEFAULT_CHARACTER_SET@) ==> r is Some,
        r matches Some(text) ==> (label@ == encode_utf8(DEFAULT_CHARACTER_SET@) && plain_utf8(
            bytes@,
        ) ==> text@ == decode_utf8(bytes@)),
{
    match encoding_rs::Encoding::for_label(label) {
        Some(encoding) => Some(encoding.decode(bytes).0.into_owned()),
        None => None,
    }
}

/// The text of a body in the character set that `label` names, and in UTF-8
/// where the label names none.
pub open spec fn text_in_charset(label: Seq<char>, body: Seq<u8>) -> Seq<char> {
    match decoded_text(encode_utf8(label), body) {
        Some(text) => text,
        None => decoded_text(encode_utf8(DEFAULT_CHARACTER_SET@), body).unwrap(),
    }
}

/// Decodes a body in the character set that `label` names, and in UTF-8
/// where the label names none.
pub fn decode_body(label: &str, body: &[u8]) -> (text: String)
    requires
        decodable(body@),
    ensures
        text@ == text_in_charset(label@, body@),
        label@ == DEFAULT_CHARACTER_SET@ && plain_utf8(body@) ==> text@ == decode_utf8(body@),
{
    match decode_with_label(label.as_bytes(), body) {
        Some(text) => text,
        None => decode_with_label(DEFAULT_CHARACTER_SET.as_bytes(), body).unwrap(),
    }
}

} // verus!
