//! Byte and text encodings the library hands to other crates: lossy UTF-8
//! decoding of command output, standard Base64 for images, and JSON string
//! arrays.
use vstd::prelude::*;
use vstd::utf8::{decode_utf8, valid_utf8};
use base64::Engine;
use crate::text::{chars_of, push_str, string_of};

verus! {

/// What `String::from_utf8_lossy` returns for some bytes: the decoded text,
/// with each invalid sequence replaced by U+FFFD.
pub uninterp spec fn utf8_lossy(bytes: Seq<u8>) -> Seq<char>;

/// `String::from_utf8_lossy(bytes).into_owned()`. Claimed: the result is the
/// lossy decoding named by [`utf8_lossy`], and for valid UTF-8 it is the
/// plain decoding (the documentation: "If the bytes are valid UTF-8, returns
/// them as a string slice").
#[verifier::external_body]
pub(crate) fn lossy_text(bytes: &[u8]) -> (s: String)
    ensures
        s@ == utf8_lossy(bytes@),
        valid_utf8(bytes@) ==> s@ == decode_utf8(bytes@),
{
    String::from_utf8_lossy(bytes).into_owned()
}

/// The character for a 6-bit value in the standard Base64 alphabet
/// (RFC 4648, section 4).
pub open spec fn base64_digit(v: int) -> char {
    if v < 26 {
        (65 + v) as char
    } else if v < 52 {
        (97 + v - 26) as char
    } else if v < 62 {
        (48 + v - 52) as char
    } else if v == 62 {
        '+'
    } else {
        '/'
    }
}

/// Standard Base64 with `=` padding (RFC 4648, section 4): each group of
/// three bytes becomes four characters, and a last group of one or two
/// bytes is padded.
pub open spec fn base64(b: Seq<u8>) -> Seq<char>
    decreases b.len(),
{
    if b.len() == 0 {
        Seq::empty()
    } else if b.len() == 1 {
        seq![base64_digit(b[0] as int / 4), base64_digit((b[0] as int % 4) * 16), '=', '=']
    } else if b.len() == 2 {
        seq![
            base64_digit(b[0] as int / 4),
            base64_digit((b[0] as int % 4) * 16 + b[1] as int / 16),
            base64_digit((b[1] as int % 16) * 4),
            '=',
        ]
    } else {
        seq![
            base64_digit(b[0] as int / 4),
            base64_digit((b[0] as int % 4) * 16 + b[1] as int / 16),
            base64_digit((b[1] as int % 16) * 4 + b[2] as int / 64),
            base64_digit(b[2] as int % 64),
        ] + base64(b.skip(3))
    }
}

/// `base64::engine::general_purpose::STANDARD.encode(bytes)`. Claimed: the
/// result is the standard, padded Base64 text of the bytes, as [`base64`]
/// states it (the engine's documentation: the standard alphabet of RFC 4648
/// with padding). Inputs whose encoded length would not fit in `usize` make
/// the engine panic; no slice in memory is that long, since none exceeds
/// `isize::MAX` bytes.
#[verifier::external_body]
pub(crate) fn base64_standard(bytes: &[u8]) -> (s: String)
    requires
        bytes@.len() <= isize::MAX,
    ensures
        s@ == base64(bytes@),
{
    base64::engine::general_purpose::STANDARD.encode(bytes)
}

/// The Base64 text of a file's bytes, as sent back for a stored screenshot.
pub fn encode_base64(bytes: &[u8]) -> (s: String)
    requires
        bytes@.len() <= isize::MAX,
    ensures
        s@ == base64(bytes@),
{
    base64_standard(bytes)
}

/// A `data:` URL for PNG image bytes.
pub open spec fn png_data_url(bytes: Seq<u8>) -> Seq<char> {
    "data:image/png;base64,"@ + base64(bytes)
}

/// The `data:` URL under which a PNG screenshot is sent to the model.
pub fn png_data_url_of(bytes: &[u8]) -> (url: String)
    requires
        bytes@.len() <= isize::MAX,
    ensures
        url@ == png_data_url(bytes@),
{
    let mut v = chars_of("data:image/png;base64,");
    let encoded = base64_standard(bytes);
    push_str(&mut v, encoded.as_str());
    string_of(&v)
}

/// What `serde_json::from_str::<Vec<String>>` gives for a text: the strings
/// of a JSON array of strings, or `None` when the text is not one.
pub uninterp spec fn json_string_array(text: Seq<char>) -> Option<Seq<Seq<char>>>;

/// `serde_json::from_str::<Vec<String>>(text).ok()`. Claimed: the result is
/// the one named by [`json_string_array`] for the text.
#[verifier::external_body]
pub(crate) fn parse_string_array(text: &str) -> (r: Option<Vec<String>>)
    ensures
        match r {
            Some(v) => json_string_array(text@) == Some(v@.map_values(|s: String| s@)),
            None => json_string_array(text@) is None,
        },
{
    serde_json::from_str::<Vec<String>>(text).ok()
}

} // verus!
