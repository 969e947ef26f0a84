//! Data encoding/decoding between MCP tool strings and raw bytes.
//!
//! MCP tool arguments carry serial payloads as strings tagged with an
//! `encoding` field. This module converts in both directions and reports
//! a typed error per failure mode.
pub mod b64;
pub mod hex_text;

use crate::codec::b64::{
    ascii_chars, b64_standard, b64_url_no_pad, lemma_encode_ascii, lemma_encode_injective,
    standard_decode, standard_encode, url_safe_no_pad_decode,
};
use crate::codec::hex_text::{
    encode_hex_spaced, hex_decode, hex_decoded, hex_input_bytes, hex_spaced, hex_valid,
    lemma_hex_roundtrip, remove_spaces,
};
use crate::text::{
    all_white_space, ascii_lowercase, chars_eq_str, chars_of, is_white_space,
    law_trim_ignores_surrounding_white_space, lowercase, push_str, string_of,
    to_lowercase, trim_chars, trim_end_ws, trim_start_ws, trim_ws,
};
use vstd::prelude::*;
use vstd::slice::slice_to_vec;
use vstd::string::*;
use vstd::utf8::*;

verus! {

/// std's error for bytes that are not UTF-8.
#[verifier::external_type_specification]
#[verifier::external_body]
pub struct ExFromUtf8Error(std::string::FromUtf8Error);

/// Wire-format used to represent serial bytes inside an MCP tool string.
#[derive(Debug, Clone, Copy, PartialEq, Eq, Structural)]
pub enum Encoding {
    /// Raw UTF-8 text. Bytes that are not valid UTF-8 cannot be encoded.
    Utf8,
    /// Lowercase hex pairs. Decoder accepts upper or lower case and ignores spaces.
    Hex,
    /// Standard Base64. Decoder also accepts URL-safe / no-padding input.
    Base64,
}

/// A failure to convert between a tool string and bytes.
#[derive(Debug)]
pub enum CodecError {
    UnknownEncoding(String),
    InvalidUtf8(std::string::FromUtf8Error),
    InvalidHex(hex::FromHexError),
    InvalidBase64(base64::DecodeError),
    HexOddLength,
}

/// The encoding that a lowercased encoding name selects.
pub open spec fn encoding_for_name(lower: Seq<char>) -> Option<Encoding> {
    if lower == "utf8"@ || lower == "utf-8"@ {
        Some(Encoding::Utf8)
    } else if lower == "hex"@ {
        Some(Encoding::Hex)
    } else if lower == "base64"@ || lower == "b64"@ {
        Some(Encoding::Base64)
    } else {
        None
    }
}

impl Encoding {
    /// The canonical name of the encoding.
    pub open spec fn name(self) -> Seq<char> {
        match self {
            Encoding::Utf8 => "utf8"@,
            Encoding::Hex => "hex"@,
            Encoding::Base64 => "base64"@,
        }
    }

    /// The canonical name: `utf8`, `hex` or `base64`.
    pub fn to_string(&self) -> (s: String)
        ensures
            s@ == self.name(),
    {
        match self {
            Encoding::Utf8 => String::from_str("utf8"),
            Encoding::Hex => String::from_str("hex"),
            Encoding::Base64 => String::from_str("base64"),
        }
    }

    /// Parses an encoding name, case-insensitively: `utf8`/`utf-8`, `hex`,
    /// `base64`/`b64`.
    pub fn parse(s: &str) -> (r: Result<Encoding, CodecError>)
        ensures
            match r {
                Ok(e) => encoding_for_name(lowercase(s@)) == Some(e),
                Err(err) => encoding_for_name(lowercase(s@)) is None && (err matches CodecError::UnknownEncoding(n) && n@ == s@),
            },
            is_ascii_chars(s@) ==> lowercase(s@) == ascii_lowercase(s@),
    {
        let lower = to_lowercase(s);
        let l = chars_of(lower.as_str());
        if chars_eq_str(&l, "utf8") || chars_eq_str(&l, "utf-8") {
            Ok(Encoding::Utf8)
        } else if chars_eq_str(&l, "hex") {
            Ok(Encoding::Hex)
        } else if chars_eq_str(&l, "base64") || chars_eq_str(&l, "b64") {
            Ok(Encoding::Base64)
        } else {
            Err(CodecError::UnknownEncoding(s.to_owned()))
        }
    }
}

impl std::str::FromStr for Encoding {
    type Err = CodecError;

    fn from_str(s: &str) -> (r: Result<Self, Self::Err>)
        ensures
            match r {
                Ok(e) => encoding_for_name(lowercase(s@)) == Some(e),
                Err(err) => encoding_for_name(lowercase(s@)) is None && (err matches CodecError::UnknownEncoding(n) && n@ == s@),
            },
            is_ascii_chars(s@) ==> lowercase(s@) == ascii_lowercase(s@),
    {
        Encoding::parse(s)
    }
}

/// `Display` of std's UTF-8 error.
#[verifier::external_body]
fn utf8_error_text(e: &std::string::FromUtf8Error) -> String {
    e.to_string()
}

/// `Display` of the `hex` crate's error.
#[verifier::external_body]
fn hex_error_text(e: &hex::FromHexError) -> String {
    e.to_string()
}

/// `Display` of the `base64` crate's error.
#[verifier::external_body]
fn base64_error_text(e: &base64::DecodeError) -> String {
    e.to_string()
}

impl CodecError {
    /// The fixed text that starts the message of each error.
    pub open spec fn message_prefix(&self) -> Seq<char> {
        match self {
            CodecError::UnknownEncoding(_) => "Unknown encoding: "@,
            CodecError::InvalidUtf8(_) => "Invalid UTF-8: "@,
            CodecError::InvalidHex(_) => "Invalid hex: "@,
            CodecError::InvalidBase64(_) => "Invalid base64: "@,
            CodecError::HexOddLength => "Hex string must have even length"@,
        }
    }

    /// The human-readable message of the error. The text after the prefix
    /// of an error wrapped from std, `hex` or `base64` is that error's own
    /// `Display` text.
    pub fn message(&self) -> (m: String)
        ensures
            self.message_prefix().is_prefix_of(m@),
            self matches CodecError::UnknownEncoding(n) ==> m@ == self.message_prefix() + n@,
            self is HexOddLength ==> m@ == self.message_prefix(),
    {
        match self {
            CodecError::UnknownEncoding(n) => {
                let mut m = String::from_str("Unknown encoding: ");
                push_str(&mut m, n.as_str());
                m
            },
            CodecError::InvalidUtf8(e) => {
                let mut m = String::from_str("Invalid UTF-8: ");
                let t = utf8_error_text(e);
                push_str(&mut m, t.as_str());
                m
            },
            CodecError::InvalidHex(e) => {
                let mut m = String::from_str("Invalid hex: ");
                let t = hex_error_text(e);
                push_str(&mut m, t.as_str());
                m
            },
            CodecError::InvalidBase64(e) => {
                let mut m = String::from_str("Invalid base64: ");
                let t = base64_error_text(e);
                push_str(&mut m, t.as_str());
                m
            },
            CodecError::HexOddLength => String::from_str("Hex string must have even length"),
        }
    }
}

/// `String::from_utf8`: accepts exactly the valid UTF-8 byte strings and
/// gives the characters they encode.
#[verifier::external_body]
pub(crate) fn string_from_utf8(v: Vec<u8>) -> (r: Result<String, std::string::FromUtf8Error>)
    ensures
        match r {
            Ok(s) => valid_utf8(v@) && s@ == decode_utf8(v@),
            Err(_) => !valid_utf8(v@),
        },
{
    String::from_utf8(v)
}

// ---- What decoding and encoding compute -------------------------------------

/// The bytes that a tool string stands for in the given encoding, or `None`
/// when it is not a valid string of that encoding.
///
/// - UTF-8: the UTF-8 bytes of the string.
/// - Hex: the string trimmed of surrounding whitespace, all spaces removed,
///   read as pairs of hex digits (either case).
/// - Base64: the trimmed string read as standard padded Base64 or, failing
///   that, as URL-safe unpadded Base64.
pub open spec fn decoded(e: Encoding, s: Seq<char>) -> Option<Seq<u8>> {
    match e {
        Encoding::Utf8 => Some(encode_utf8(s)),
        Encoding::Hex => {
            let b = hex_input_bytes(s);
            if hex_valid(b) {
                Some(hex_decoded(b))
            } else {
                None
            }
        },
        Encoding::Base64 => {
            let t = encode_utf8(trim_ws(s));
            if exists|w: Seq<u8>| b64_standard(w) == t {
                Some(choose|w: Seq<u8>| b64_standard(w) == t)
            } else if exists|w: Seq<u8>| b64_url_no_pad(w) == t {
                Some(choose|w: Seq<u8>| b64_url_no_pad(w) == t)
            } else {
                None
            }
        },
    }
}

/// Which error a failed decode reports: odd hex digit counts are reported
/// before anything else is checked.
pub open spec fn decode_error_fits(e: Encoding, s: Seq<char>, err: CodecError) -> bool {
    match e {
        Encoding::Utf8 => false,
        Encoding::Hex => if hex_input_bytes(s).len() % 2 == 1 {
            err is HexOddLength
        } else {
            err is InvalidHex
        },
        Encoding::Base64 => err is InvalidBase64,
    }
}

/// The tool string for the given bytes, or `None` when the encoding cannot
/// represent them (UTF-8 of bytes that are not valid UTF-8).
pub open spec fn encoded(e: Encoding, b: Seq<u8>) -> Option<Seq<char>> {
    match e {
        Encoding::Utf8 => if valid_utf8(b) {
            Some(decode_utf8(b))
        } else {
            None
        },
        Encoding::Hex => Some(hex_spaced(b)),
        Encoding::Base64 => Some(ascii_chars(b64_standard(b))),
    }
}

fn decode_hex(input: &str) -> (r: Result<Vec<u8>, CodecError>)
    ensures
        match r {
            Ok(v) => decoded(Encoding::Hex, input@) == Some(v@),
            Err(err) => decoded(Encoding::Hex, input@) is None && decode_error_fits(
                Encoding::Hex,
                input@,
                err,
            ),
        },
{
    let chars = chars_of(input);
    let trimmed = trim_chars(&chars);
    let stripped = string_of(&remove_spaces(&trimmed));
    let bytes = stripped.as_str().as_bytes();
    if bytes.len() % 2 != 0 {
        return Err(CodecError::HexOddLength);
    }
    match hex_decode(bytes) {
        Ok(v) => Ok(v),
        Err(e) => Err(CodecError::InvalidHex(e)),
    }
}

fn decode_base64(input: &str) -> (r: Result<Vec<u8>, CodecError>)
    ensures
        match r {
            Ok(v) => decoded(Encoding::Base64, input@) == Some(v@),
            Err(err) => decoded(Encoding::Base64, input@) is None && decode_error_fits(
                Encoding::Base64,
                input@,
                err,
            ),
        },
{
    let trimmed = string_of(&trim_chars(&chars_of(input)));
    let bytes = trimmed.as_str().as_bytes();
    let ghost t = bytes@;
    match standard_decode(bytes) {
        Ok(v) => {
            proof {
                let w = choose|w: Seq<u8>| b64_standard(w) == t;
                lemma_encode_injective(v@, w, false, true);
            }
            Ok(v)
        },
        Err(_) => match url_safe_no_pad_decode(bytes) {
            Ok(v) => {
                proof {
                    let w = choose|w: Seq<u8>| b64_url_no_pad(w) == t;
                    lemma_encode_injective(v@, w, true, false);
                }
                Ok(v)
            },
            Err(e) => Err(CodecError::InvalidBase64(e)),
        },
    }
}

/// Decode a tool-supplied string into raw bytes.
pub fn decode(encoding: Encoding, input: &str) -> (r: Result<Vec<u8>, CodecError>)
    ensures
        match r {
            Ok(v) => decoded(encoding, input@) == Some(v@),
            Err(err) => decoded(encoding, input@) is None && decode_error_fits(
                encoding,
                input@,
                err,
            ),
        },
{
    match encoding {
        Encoding::Utf8 => Ok(slice_to_vec(input.as_bytes())),
        Encoding::Hex => decode_hex(input),
        Encoding::Base64 => decode_base64(input),
    }
}

/// Encode raw bytes into a string suitable for an MCP tool response.
pub fn encode(encoding: Encoding, bytes: &[u8]) -> (r: Result<String, CodecError>)
    requires
        bytes@.len() <= usize::MAX / 2,
    ensures
        match r {
            Ok(s) => encoded(encoding, bytes@) == Some(s@),
            Err(err) => encoded(encoding, bytes@) is None && err is InvalidUtf8,
        },
{
    match encoding {
        Encoding::Utf8 => match string_from_utf8(slice_to_vec(bytes)) {
            Ok(s) => Ok(s),
            Err(e) => Err(CodecError::InvalidUtf8(e)),
        },
        Encoding::Hex => Ok(encode_hex_spaced(bytes)),
        Encoding::Base64 => Ok(standard_encode(bytes)),
    }
}

// ---- Laws -------------------------------------------------------------------

/// Decoding what was encoded gives back the bytes, for every encoding that
/// can represent them (hex and Base64 always, UTF-8 for valid UTF-8).
pub proof fn law_decode_after_encode(e: Encoding, b: Seq<u8>)
    requires
        encoded(e, b) is Some,
    ensures
        decoded(e, encoded(e, b).unwrap()) == Some(b),
{
    match e {
        Encoding::Utf8 => {
            decode_utf8_encode_utf8(b);
        },
        Encoding::Hex => {
            lemma_hex_roundtrip(b);
        },
        Encoding::Base64 => {
            let t = b64_standard(b);
            let s = ascii_chars(t);
            lemma_encode_ascii(b, false, true);
            assert forall|i: int| 0 <= i < s.len() implies !is_white_space(#[trigger] s[i]) by {
                assert(0x21 <= t[i] <= 0x7a);
            }
            if s.len() > 0 {
                assert(!is_white_space(s[0]));
                assert(!is_white_space(s.last()));
            }
            assert(trim_start_ws(s) == s);
            assert(trim_end_ws(s) == s);
            assert forall|i: int| 0 <= i < s.len() implies (#[trigger] s[i] as u32) < 0x80 by {
                assert(0x21 <= t[i] <= 0x7a);
            }
            assert(is_ascii_chars(s));
            is_ascii_chars_encode_utf8(s);
            assert(encode_utf8(s) =~= t);
            let w = choose|w: Seq<u8>| b64_standard(w) == t;
            lemma_encode_injective(w, b, false, true);
        },
    }
}

/// Encoding the bytes of a UTF-8 tool string gives back the string.
pub proof fn law_utf8_encode_after_decode(s: Seq<char>)
    ensures
        encoded(Encoding::Utf8, decoded(Encoding::Utf8, s).unwrap()) == Some(s),
{
    encode_utf8_valid_utf8(s);
    encode_utf8_decode_utf8(s);
}

/// Every encoding parses back from its canonical name.
pub proof fn law_parse_name(e: Encoding)
    ensures
        is_ascii_chars(e.name()),
        encoding_for_name(ascii_lowercase(e.name())) == Some(e),
{
    reveal_strlit("utf8");
    reveal_strlit("utf-8");
    reveal_strlit("hex");
    reveal_strlit("base64");
    reveal_strlit("b64");
    assert(ascii_lowercase(e.name()) =~= e.name());
}

/// Whitespace around a Base64 payload is ignored: the payload decodes to
/// the same bytes with or without it, so the padded encoding of any bytes,
/// followed by a newline or preceded by spaces, still decodes to them.
pub proof fn law_base64_ignores_surrounding_white_space(
    w1: Seq<char>,
    s: Seq<char>,
    w2: Seq<char>,
    b: Seq<u8>,
)
    requires
        all_white_space(w1),
        all_white_space(w2),
    ensures
        decoded(Encoding::Base64, w1 + s + w2) == decoded(Encoding::Base64, s),
        decoded(Encoding::Base64, w1 + encoded(Encoding::Base64, b).unwrap() + w2) == Some(b),
{
    law_trim_ignores_surrounding_white_space(w1, s, w2);
    let e = encoded(Encoding::Base64, b).unwrap();
    law_trim_ignores_surrounding_white_space(w1, e, w2);
    law_decode_after_encode(Encoding::Base64, b);
}

/// Whitespace around a hex payload is ignored: the payload decodes to the
/// same bytes with or without it, so the spaced hex of any bytes, followed
/// by a newline or preceded by spaces, still decodes to them.
pub proof fn law_hex_ignores_surrounding_white_space(
    w1: Seq<char>,
    s: Seq<char>,
    w2: Seq<char>,
    b: Seq<u8>,
)
    requires
        all_white_space(w1),
        all_white_space(w2),
    ensures
        decoded(Encoding::Hex, w1 + s + w2) == decoded(Encoding::Hex, s),
        decoded(Encoding::Hex, w1 + encoded(Encoding::Hex, b).unwrap() + w2) == Some(b),
{
    law_trim_ignores_surrounding_white_space(w1, s, w2);
    let e = encoded(Encoding::Hex, b).unwrap();
    law_trim_ignores_surrounding_white_space(w1, e, w2);
    law_decode_after_encode(Encoding::Hex, b);
}

} // verus!
