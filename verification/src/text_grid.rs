//! Reading and writing whole TextGrids: the text format from bytes in UTF-8
//! or UTF-16, and the binary format.
use vstd::prelude::*;
use vstd::utf8::{decode_utf8, valid_utf8};

use crate::binary_format::deserializer::{deserialize, spec_deserialize, DeserializeError};
use crate::binary_format::serializer::{serialize, spec_serialize, SerializeError};
use crate::model::TextGrid;
use crate::text_format::parser::{parse, spec_parse, ParseError, ParseErrorModel};
use crate::text_format::stringifier::{long_text, short_text, stringify_long, stringify_short};
use crate::utf16::{decode_utf16, string_from_utf16};

verus! {

/// `std::str::Utf8Error`: why bytes are not UTF-8.
#[verifier::external_type_specification]
#[verifier::external_body]
pub struct ExUtf8Error(std::str::Utf8Error);

/// `std::str::from_utf8`: the bytes as a string slice exactly when they are
/// valid UTF-8 (as the standard library documents it), and then the
/// characters they encode; what the error holds is not stated.
#[verifier::external_body]
fn str_from_utf8(bytes: &[u8]) -> (r: Result<&str, std::str::Utf8Error>)
    ensures
        r is Ok <==> valid_utf8(bytes@),
        r matches Ok(s) ==> s@ == decode_utf8(bytes@),
{
    std::str::from_utf8(bytes)
}

/// Why bytes are not a TextGrid in the text format.
#[derive(Debug)]
pub enum TextFormatParseErrorEx {
    TextFormatParseError { source: ParseError },
    TextFormatFromUtf16Error { source: std::string::FromUtf16Error },
    TextFormatUtf8Error { source: std::str::Utf8Error },
}

/// The encodings of text-format bytes, by their first two bytes.
pub enum Encoding {
    Utf16Le,
    Utf16Be,
    Utf8,
}

/// The encoding of text-format bytes: UTF-16 little-endian after the mark
/// `FF FE`, big-endian after `FE FF`, UTF-8 otherwise.
pub open spec fn encoding_of(input: Seq<u8>) -> Encoding {
    if input.len() >= 2 && input[0] == 0xFF && input[1] == 0xFE {
        Encoding::Utf16Le
    } else if input.len() >= 2 && input[0] == 0xFE && input[1] == 0xFF {
        Encoding::Utf16Be
    } else {
        Encoding::Utf8
    }
}

/// The code units of UTF-16 bytes after the byte-order mark, two bytes each,
/// little-endian or big-endian.
pub open spec fn units_of(bytes: Seq<u8>, little: bool) -> Seq<u16> {
    Seq::new(
        (bytes.len() / 2) as nat,
        |i: int|
            if little {
                (bytes[2 * i] as int + bytes[2 * i + 1] as int * 256) as u16
            } else {
                (bytes[2 * i] as int * 256 + bytes[2 * i + 1] as int) as u16
            },
    )
}

/// The outcome of reading text-format bytes, as the error's shape: which
/// step failed, and for the parser, why.
pub enum ReadOutcome {
    Parsed(crate::model::GridModel<Seq<char>>),
    ParseFailed(ParseErrorModel),
    BadUtf16,
    BadUtf8,
}

/// What reading text-format bytes gives.
pub open spec fn spec_read_text_format(input: Seq<u8>) -> ReadOutcome {
    let decoded = match encoding_of(input) {
        Encoding::Utf16Le => match decode_utf16(units_of(input.skip(2), true)) {
            Some(s) => Some(s),
            None => None,
        },
        Encoding::Utf16Be => match decode_utf16(units_of(input.skip(2), false)) {
            Some(s) => Some(s),
            None => None,
        },
        Encoding::Utf8 => if valid_utf8(input) {
            Some(decode_utf8(input))
        } else {
            None
        },
    };
    match decoded {
        Some(s) => match spec_parse(s) {
            Ok(g) => ReadOutcome::Parsed(g),
            Err(e) => ReadOutcome::ParseFailed(e),
        },
        None => match encoding_of(input) {
            Encoding::Utf8 => ReadOutcome::BadUtf8,
            _ => ReadOutcome::BadUtf16,
        },
    }
}

/// Whether bytes after a byte-order mark come in whole code units.
pub open spec fn whole_units(input: Seq<u8>) -> bool {
    match encoding_of(input) {
        Encoding::Utf8 => true,
        _ => input.len() % 2 == 0,
    }
}

fn utf16_units(input: &[u8], little: bool) -> (r: Vec<u16>)
    requires
        input@.len() >= 2,
        input@.len() % 2 == 0,
    ensures
        r@ == units_of(input@.skip(2), little),
{
    let mut r: Vec<u16> = Vec::new();
    let mut i: usize = 2;
    while i < input.len()
        invariant
            2 <= i <= input@.len(),
            input@.len() % 2 == 0,
            i % 2 == 0,
            r@ == units_of(input@.skip(2), little).take((i - 2) / 2),
        decreases input@.len() - i,
    {
        let a = input[i] as u16;
        let b = input[i + 1] as u16;
        let u: u16 = if little {
            a + b * 256
        } else {
            a * 256 + b
        };
        r.push(u);
        proof {
            let all = units_of(input@.skip(2), little);
            let k = (i - 2) / 2;
            assert(input@.skip(2)[2 * k] == input@[i as int]);
            assert(input@.skip(2)[2 * k + 1] == input@[i + 1]);
            assert(all[k] == u);
            assert(r@ =~= all.take(k + 1));
        }
        i = i + 2;
    }
    proof {
        let all = units_of(input@.skip(2), little);
        assert(all.take((input@.len() - 2) / 2) =~= all);
    }
    r
}

impl TextGrid<String> {
    /// Reads a TextGrid from the text format in a string slice.
    pub fn parse_text_format_utf8(input: &str) -> (r: Result<Self, ParseError>)
        ensures
            match spec_parse(input@) {
                Ok(g) => r matches Ok(x) && x@ == g,
                Err(e) => r matches Err(x) && x@ == e,
            },
    {
        parse(input)
    }

    /// Reads a TextGrid from the text format in bytes: UTF-16 (little-endian
    /// after the mark `FF FE`, big-endian after `FE FF`) or else UTF-8
    /// without a mark.
    pub fn parse_text_format(input: &[u8]) -> (r: Result<Self, TextFormatParseErrorEx>)
        requires
            whole_units(input@),
        ensures
            match spec_read_text_format(input@) {
                ReadOutcome::Parsed(g) => r matches Ok(x) && x@ == g,
                ReadOutcome::ParseFailed(e) => r matches Err(
                    TextFormatParseErrorEx::TextFormatParseError { source },
                ) && source@ == e,
                ReadOutcome::BadUtf16 => r matches Err(
                    TextFormatParseErrorEx::TextFormatFromUtf16Error { .. },
                ),
                ReadOutcome::BadUtf8 => r matches Err(
                    TextFormatParseErrorEx::TextFormatUtf8Error { .. },
                ),
            },
    {
        let n = input.len();
        let result = if n >= 2 && input[0] == 0xFF && input[1] == 0xFE {
            let units = utf16_units(input, true);
            match string_from_utf16(units.as_slice()) {
                Ok(s) => Self::parse_text_format_utf8(s.as_str()),
                Err(e) => {
                    return Err(TextFormatParseErrorEx::TextFormatFromUtf16Error { source: e });
                },
            }
        } else if n >= 2 && input[0] == 0xFE && input[1] == 0xFF {
            let units = utf16_units(input, false);
            match string_from_utf16(units.as_slice()) {
                Ok(s) => Self::parse_text_format_utf8(s.as_str()),
                Err(e) => {
                    return Err(TextFormatParseErrorEx::TextFormatFromUtf16Error { source: e });
                },
            }
        } else {
            match str_from_utf8(input) {
                Ok(s) => Self::parse_text_format_utf8(s),
                Err(e) => {
                    return Err(TextFormatParseErrorEx::TextFormatUtf8Error { source: e });
                },
            }
        };
        match result {
            Ok(g) => Ok(g),
            Err(e) => Err(TextFormatParseErrorEx::TextFormatParseError { source: e }),
        }
    }

    /// The TextGrid in the long text format.
    pub fn stringify_long(&self) -> (r: String)
        ensures
            r@ == long_text(self@),
    {
        stringify_long(self)
    }

    /// The TextGrid in the short text format.
    pub fn stringify_short(&self) -> (r: String)
        ensures
            r@ == short_text(self@),
    {
        stringify_short(self)
    }
}

impl TextGrid<u64> {
    /// Reads a TextGrid from the binary format.
    pub fn deserialize_binary_format(input: &[u8]) -> (r: Result<Self, DeserializeError>)
        ensures
            match spec_deserialize(input@) {
                Ok(g) => r matches Ok(x) && x@ == g,
                Err(e) => r matches Err(x) && x@ == e,
            },
    {
        deserialize(input)
    }

    /// The TextGrid in the binary format, or why it cannot be written.
    pub fn serialize_binary_format(&self) -> (r: Result<Vec<u8>, SerializeError>)
        ensures
            match spec_serialize(self@) {
                Ok(b) => r matches Ok(v) && v@ == b,
                Err(e) => r == Err::<Vec<u8>, SerializeError>(e),
            },
    {
        serialize(self)
    }
}

/// The bytes of UTF-16 code units, two each, little-endian or big-endian.
pub open spec fn utf16_bytes(u: Seq<u16>, little: bool) -> Seq<u8> {
    Seq::new(
        (2 * u.len()) as nat,
        |k: int|
            if (k % 2 == 0) == little {
                (u[k / 2] % 256) as u8
            } else {
                (u[k / 2] / 256) as u8
            },
    )
}

/// What reading a text gives, as the outcome of reading its bytes.
pub open spec fn parse_outcome(s: Seq<char>) -> ReadOutcome {
    match spec_parse(s) {
        Ok(g) => ReadOutcome::Parsed(g),
        Err(e) => ReadOutcome::ParseFailed(e),
    }
}

proof fn lemma_units_of_bytes(u: Seq<u16>, little: bool)
    ensures
        units_of(utf16_bytes(u, little), little) == u,
{
    let b = utf16_bytes(u, little);
    assert forall|i: int| 0 <= i < u.len() implies #[trigger] units_of(b, little)[i] == u[i] by {
        assert((2 * i) % 2 == 0 && (2 * i) / 2 == i);
        assert((2 * i + 1) % 2 == 1 && (2 * i + 1) / 2 == i);
        let lo = u[i] % 256;
        let hi = u[i] / 256;
        assert(u[i] == hi * 256 + lo);
    }
    assert(units_of(b, little) =~= u);
}

/// The same text reads alike from its bytes in UTF-8, and in UTF-16 of either
/// byte order after the byte-order mark: as the text itself.
pub proof fn law_encodings_read_alike(s: Seq<char>)
    ensures
        spec_read_text_format(vstd::utf8::encode_utf8(s)) == parse_outcome(s),
        spec_read_text_format(seq![0xFFu8, 0xFEu8] + utf16_bytes(crate::utf16::encode_utf16(s), true))
            == parse_outcome(s),
        spec_read_text_format(seq![0xFEu8, 0xFFu8] + utf16_bytes(crate::utf16::encode_utf16(s), false))
            == parse_outcome(s),
{
    let b8 = vstd::utf8::encode_utf8(s);
    vstd::utf8::encode_utf8_valid_utf8(s);
    vstd::utf8::encode_utf8_decode_utf8(s);
    if b8.len() >= 1 {
        assert(valid_utf8(b8));
        assert(vstd::utf8::valid_first_scalar(b8));
        assert(b8[0] != 0xFF && b8[0] != 0xFE);
    }
    crate::utf16::lemma_decode_encode_utf16(s);
    let u = crate::utf16::encode_utf16(s);
    let le = seq![0xFFu8, 0xFEu8] + utf16_bytes(u, true);
    let be = seq![0xFEu8, 0xFFu8] + utf16_bytes(u, false);
    assert(le.skip(2) =~= utf16_bytes(u, true));
    assert(be.skip(2) =~= utf16_bytes(u, false));
    lemma_units_of_bytes(u, true);
    lemma_units_of_bytes(u, false);
    assert(le[0] == 0xFF && le[1] == 0xFE);
    assert(be[0] == 0xFE && be[1] == 0xFF);
}

} // verus!
