//! Reading the binary TextGrid format.
use vstd::prelude::*;
use vstd::utf8::{decode_utf8, valid_utf8};

use crate::binary_format::be::{
    be_value, from_twos, lemma_be_value_bound, lemma_p256_values, read_be,
};
use crate::binary_format::{object_class_name, oo_binary_file_magic};
use crate::model::{
    intervals_view, points_view, tiers_view, TextGrid, TextGridInterval, TextGridIntervalTier,
    TextGridPoint, TextGridTextTier, TextGridTier,
    kind_of_name_bytes, GridModel, IntervalModel, PointModel, TextGridTierKind, TierModel,
};
use crate::textbuf::{decimal, push_char, push_decimal, push_signed_decimal, push_str, signed_decimal};
use crate::utf16::{decode_utf16, string_from_utf16};

verus! {

/// `std::string::FromUtf8Error`: why bytes are not UTF-8.
#[verifier::external_type_specification]
#[verifier::external_body]
pub struct ExFromUtf8Error(std::string::FromUtf8Error);

/// Why a byte sequence is not a binary TextGrid this library reads.
#[derive(Debug)]
pub enum DeserializeError {
    NotOoBinaryFile,
    NotTextGridFile,
    UnexpectedEndOfInput { details: String },
    Unsupported { details: String },
    InvalidUtf8String { source: std::string::FromUtf8Error },
    InvalidUtf16String { source: std::string::FromUtf16Error },
    InvalidAsciiString,
    UnsupportedTierClass { name: String },
}

/// The value of a [`DeserializeError`].
pub enum DeserializeErrorModel {
    NotOoBinaryFile,
    NotTextGridFile,
    UnexpectedEndOfInput(Seq<char>),
    Unsupported(Seq<char>),
    InvalidUtf8String,
    InvalidUtf16String,
    InvalidAsciiString,
    UnsupportedTierClass(Seq<char>),
}

impl View for DeserializeError {
    type V = DeserializeErrorModel;

    open spec fn view(&self) -> DeserializeErrorModel {
        match self {
            DeserializeError::NotOoBinaryFile => DeserializeErrorModel::NotOoBinaryFile,
            DeserializeError::NotTextGridFile => DeserializeErrorModel::NotTextGridFile,
            DeserializeError::UnexpectedEndOfInput { details } => {
                DeserializeErrorModel::UnexpectedEndOfInput(details@)
            },
            DeserializeError::Unsupported { details } => DeserializeErrorModel::Unsupported(
                details@,
            ),
            DeserializeError::InvalidUtf8String { .. } => DeserializeErrorModel::InvalidUtf8String,
            DeserializeError::InvalidUtf16String { .. } => DeserializeErrorModel::InvalidUtf16String,
            DeserializeError::InvalidAsciiString => DeserializeErrorModel::InvalidAsciiString,
            DeserializeError::UnsupportedTierClass { name } => {
                DeserializeErrorModel::UnsupportedTierClass(name@)
            },
        }
    }
}

impl View for TextGridTierKind {
    type V = TextGridTierKind;

    open spec fn view(&self) -> TextGridTierKind {
        *self
    }
}

/// The outcome of reading a value at a position: the value and the position
/// after it, or an error.
pub type DesResult<T> = Result<(T, int), DeserializeErrorModel>;

/// Whether an executable result and cursor agree with a specified outcome.
pub open spec fn outcome<T: View>(
    r: Result<T, DeserializeError>,
    cursor: usize,
    s: DesResult<T::V>,
) -> bool {
    match s {
        Ok((v, p)) => r matches Ok(x) && x@ == v && cursor == p,
        Err(e) => r matches Err(x) && x@ == e,
    }
}

/// `String::from_utf8_lossy` on the given bytes.
pub uninterp spec fn utf8_lossy(bytes: Seq<u8>) -> Seq<char>;

/// `String::from_utf8_lossy`: the characters of the bytes, where each invalid
/// UTF-8 sequence becomes U+FFFD. What is stated: the result is named by
/// `utf8_lossy` of the bytes, and is their decoding when they are valid UTF-8;
/// how invalid sequences are replaced is left unsaid.
#[verifier::external_body]
fn string_from_utf8_lossy(bytes: &[u8]) -> (s: String)
    ensures
        s@ == utf8_lossy(bytes@),
        valid_utf8(bytes@) ==> s@ == decode_utf8(bytes@),
{
    String::from_utf8_lossy(bytes).into_owned()
}

// ---------------------------------------------------------------------------
// The format, as spec functions over the input bytes and a position.

/// The end-of-input error with the given details.
pub open spec fn eoi<T>(details: Seq<char>) -> DesResult<T> {
    Err(DeserializeErrorModel::UnexpectedEndOfInput(details))
}

/// A boolean byte: 0 or 1.
pub open spec fn des_bool(input: Seq<u8>, pos: int) -> DesResult<bool> {
    if pos < input.len() {
        let b = input[pos];
        if b == 0 {
            Ok((false, pos + 1))
        } else if b == 1 {
            Ok((true, pos + 1))
        } else {
            Err(
                DeserializeErrorModel::Unsupported(
                    "Invalid boolean value byte: "@ + decimal(b as nat),
                ),
            )
        }
    } else {
        eoi("Expected 1 byte for boolean value"@)
    }
}

/// A signed byte.
pub open spec fn des_i8(input: Seq<u8>, pos: int) -> DesResult<i8> {
    if pos < input.len() {
        Ok((input[pos] as i8, pos + 1))
    } else {
        eoi("Expected 1 byte for i8 value"@)
    }
}

/// A big-endian two's complement 16-bit integer.
pub open spec fn des_i16(input: Seq<u8>, pos: int) -> DesResult<i16> {
    if pos + 2 <= input.len() {
        Ok((from_twos(be_value(input.subrange(pos, pos + 2)), 2) as i16, pos + 2))
    } else {
        eoi("Expected 2 bytes for i16 value"@)
    }
}

/// A big-endian two's complement 32-bit integer.
pub open spec fn des_i32(input: Seq<u8>, pos: int) -> DesResult<i32> {
    if pos + 4 <= input.len() {
        Ok((from_twos(be_value(input.subrange(pos, pos + 4)), 4) as i32, pos + 4))
    } else {
        eoi("Expected 4 bytes for i32 value"@)
    }
}

/// A big-endian `f64`, taken by its bit pattern.
pub open spec fn des_number(input: Seq<u8>, pos: int) -> DesResult<u64> {
    if pos + 8 <= input.len() {
        Ok((be_value(input.subrange(pos, pos + 8)) as u64, pos + 8))
    } else {
        eoi("Expected 8 bytes for f64 value"@)
    }
}

/// `size` raw bytes.
pub open spec fn des_bytes(input: Seq<u8>, pos: int, size: nat) -> DesResult<Seq<u8>> {
    if pos + size <= input.len() {
        Ok((input.subrange(pos, pos + size), pos + size))
    } else {
        eoi("Expected "@ + decimal(size) + " bytes"@)
    }
}

/// The characters of ASCII bytes.
pub open spec fn ascii_chars(b: Seq<u8>) -> Seq<char> {
    b.map_values(|x: u8| x as char)
}

/// Whether all bytes are ASCII.
pub open spec fn all_ascii(b: Seq<u8>) -> bool {
    forall|i: int| 0 <= i < b.len() ==> b[i] <= 0x7F
}

/// The big-endian 16-bit code units of a byte sequence of even length.
pub open spec fn be_units(b: Seq<u8>) -> Seq<u16> {
    Seq::new(b.len() / 2, |i: int| (b[2 * i] as nat * 256 + b[2 * i + 1] as nat) as u16)
}

/// An ASCII string of `size` bytes.
pub open spec fn des_ascii_string(input: Seq<u8>, pos: int, size: nat) -> DesResult<Seq<char>> {
    match des_bytes(input, pos, size) {
        Ok((b, p)) => if all_ascii(b) {
            Ok((ascii_chars(b), p))
        } else {
            Err(DeserializeErrorModel::InvalidAsciiString)
        },
        Err(e) => Err(e),
    }
}

/// A big-endian UTF-16 string of `size` code units.
pub open spec fn des_utf16_string(input: Seq<u8>, pos: int, size: nat) -> DesResult<Seq<char>> {
    match des_bytes(input, pos, size * 2) {
        Ok((b, p)) => match decode_utf16(be_units(b)) {
            Some(s) => Ok((s, p)),
            None => Err(DeserializeErrorModel::InvalidUtf16String),
        },
        Err(e) => Err(e),
    }
}

/// A string with its length: a non-negative 16-bit length and ASCII bytes,
/// or -1, a 16-bit count of code units and big-endian UTF-16.
pub open spec fn des_string(input: Seq<u8>, pos: int) -> DesResult<Seq<char>> {
    match des_i16(input, pos) {
        Ok((len, p)) => if len >= 0 {
            des_ascii_string(input, p, len as nat)
        } else if len == -1 {
            match des_i16(input, p) {
                Ok((n, q)) => if n < 0 {
                    Err(
                        DeserializeErrorModel::Unsupported(
                            "Negative UTF-16 string length is not supported: "@ + signed_decimal(
                                n as int,
                            ),
                        ),
                    )
                } else {
                    des_utf16_string(input, q, n as nat)
                },
                Err(e) => Err(e),
            }
        } else {
            Err(
                DeserializeErrorModel::Unsupported(
                    "Negative string length is not supported: "@ + signed_decimal(len as int),
                ),
            )
        },
        Err(e) => Err(e),
    }
}

/// The class of a tier: a length byte and the class name.
pub open spec fn des_tier_kind(input: Seq<u8>, pos: int) -> DesResult<TextGridTierKind> {
    match des_i8(input, pos) {
        Ok((k, p)) => match des_bytes(input, p, (k as usize) as nat) {
            Ok((b, q)) => match kind_of_name_bytes(b) {
                Some(kind) => Ok((kind, q)),
                None => Err(DeserializeErrorModel::UnsupportedTierClass(utf8_lossy(b))),
            },
            Err(e) => Err(e),
        },
        Err(e) => Err(e),
    }
}

/// An interval: two numbers and a text.
pub open spec fn des_interval(input: Seq<u8>, pos: int) -> DesResult<IntervalModel<u64>> {
    match des_number(input, pos) {
        Ok((xmin, p1)) => match des_number(input, p1) {
            Ok((xmax, p2)) => match des_string(input, p2) {
                Ok((text, p3)) => Ok((IntervalModel { xmin, xmax, text }, p3)),
                Err(e) => Err(e),
            },
            Err(e) => Err(e),
        },
        Err(e) => Err(e),
    }
}

/// A point: a number and a mark.
pub open spec fn des_point(input: Seq<u8>, pos: int) -> DesResult<PointModel<u64>> {
    match des_number(input, pos) {
        Ok((number, p1)) => match des_string(input, p1) {
            Ok((mark, p2)) => Ok((PointModel { number, mark }, p2)),
            Err(e) => Err(e),
        },
        Err(e) => Err(e),
    }
}

/// Puts `v` in front of the sequence of a successful outcome.
pub open spec fn prepend<T>(v: T, r: DesResult<Seq<T>>) -> DesResult<Seq<T>> {
    match r {
        Ok((vs, p)) => Ok((seq![v] + vs, p)),
        Err(e) => Err(e),
    }
}

/// `n` intervals one after another.
pub open spec fn des_intervals(input: Seq<u8>, pos: int, n: nat) -> DesResult<Seq<IntervalModel<u64>>>
    decreases n,
{
    if n == 0 {
        Ok((seq![], pos))
    } else {
        match des_interval(input, pos) {
            Ok((v, p)) => prepend(v, des_intervals(input, p, (n - 1) as nat)),
            Err(e) => Err(e),
        }
    }
}

/// `n` points one after another.
pub open spec fn des_points(input: Seq<u8>, pos: int, n: nat) -> DesResult<Seq<PointModel<u64>>>
    decreases n,
{
    if n == 0 {
        Ok((seq![], pos))
    } else {
        match des_point(input, pos) {
            Ok((v, p)) => prepend(v, des_points(input, p, (n - 1) as nat)),
            Err(e) => Err(e),
        }
    }
}

/// The items of a tier of the given class.
pub open spec fn des_tier_items(
    input: Seq<u8>,
    pos: int,
    kind: TextGridTierKind,
    name: Seq<char>,
    xmin: u64,
    xmax: u64,
    n: nat,
) -> DesResult<TierModel<u64>> {
    match kind {
        TextGridTierKind::IntervalTier => match des_intervals(input, pos, n) {
            Ok((intervals, p)) => Ok((TierModel::Interval { name, xmin, xmax, intervals }, p)),
            Err(e) => Err(e),
        },
        TextGridTierKind::TextTier => match des_points(input, pos, n) {
            Ok((points, p)) => Ok((TierModel::Text { name, xmin, xmax, points }, p)),
            Err(e) => Err(e),
        },
    }
}

/// A tier: its class, name, time domain, item count and items.
pub open spec fn des_tier(input: Seq<u8>, pos: int) -> DesResult<TierModel<u64>> {
    match des_tier_kind(input, pos) {
        Ok((kind, p1)) => match des_string(input, p1) {
            Ok((name, p2)) => match des_number(input, p2) {
                Ok((xmin, p3)) => match des_number(input, p3) {
                    Ok((xmax, p4)) => match des_i32(input, p4) {
                        Ok((n, p5)) => if n < 0 {
                            Err(
                                DeserializeErrorModel::Unsupported(
                                    "Items in tiers do not support negative size: "@
                                        + signed_decimal(n as int),
                                ),
                            )
                        } else {
                            des_tier_items(input, p5, kind, name, xmin, xmax, n as nat)
                        },
                        Err(e) => Err(e),
                    },
                    Err(e) => Err(e),
                },
                Err(e) => Err(e),
            },
            Err(e) => Err(e),
        },
        Err(e) => Err(e),
    }
}

/// `n` tiers one after another.
pub open spec fn des_tiers(input: Seq<u8>, pos: int, n: nat) -> DesResult<Seq<TierModel<u64>>>
    decreases n,
{
    if n == 0 {
        Ok((seq![], pos))
    } else {
        match des_tier(input, pos) {
            Ok((v, p)) => prepend(v, des_tiers(input, p, (n - 1) as nat)),
            Err(e) => Err(e),
        }
    }
}

/// The header: the magic `ooBinaryFile`, the length byte 8 and `TextGrid`;
/// gives the position after it.
pub open spec fn des_header(input: Seq<u8>) -> Result<int, DeserializeErrorModel> {
    let magic = oo_binary_file_magic();
    let class = object_class_name();
    let m = magic.len() as int;
    let c = class.len() as int;
    if !(input.len() >= m && input.subrange(0, m) == magic) {
        Err(DeserializeErrorModel::NotOoBinaryFile)
    } else if input.len() <= m {
        Err(
            DeserializeErrorModel::UnexpectedEndOfInput(
                "Expected object class name length byte"@,
            ),
        )
    } else if input[m] != c {
        Err(DeserializeErrorModel::NotTextGridFile)
    } else if !(input.len() >= m + 1 + c && input.subrange(m + 1, m + 1 + c) == class) {
        Err(DeserializeErrorModel::NotTextGridFile)
    } else {
        Ok(m + 1 + c)
    }
}

/// The TextGrid that a binary file holds, or why it holds none. Bytes after
/// the last tier are ignored.
pub open spec fn spec_deserialize(input: Seq<u8>) -> Result<GridModel<u64>, DeserializeErrorModel> {
    match des_header(input) {
        Ok(p0) => match des_number(input, p0) {
            Ok((xmin, p1)) => match des_number(input, p1) {
                Ok((xmax, p2)) => match des_bool(input, p2) {
                    Ok((exists, p3)) => if !exists {
                        Ok(GridModel { xmin, xmax, tiers: seq![] })
                    } else {
                        match des_i32(input, p3) {
                            Ok((n, p4)) => if n < 0 {
                                Err(
                                    DeserializeErrorModel::Unsupported(
                                        "Negative tier size is not supported: "@ + signed_decimal(
                                            n as int,
                                        ),
                                    ),
                                )
                            } else {
                                match des_tiers(input, p4, n as nat) {
                                    Ok((tiers, _)) => Ok(GridModel { xmin, xmax, tiers }),
                                    Err(e) => Err(e),
                                }
                            },
                            Err(e) => Err(e),
                        }
                    },
                    Err(e) => Err(e),
                },
                Err(e) => Err(e),
            },
            Err(e) => Err(e),
        },
        Err(e) => Err(e),
    }
}

// ---------------------------------------------------------------------------
// Executable reading.

fn message(s: &str) -> (r: String)
    ensures
        r@ == s@,
{
    s.to_owned()
}

fn end_of_input<T>(s: &str) -> (r: Result<T, DeserializeError>)
    ensures
        r matches Err(e) && e@ == DeserializeErrorModel::UnexpectedEndOfInput(s@),
{
    Err(DeserializeError::UnexpectedEndOfInput { details: message(s) })
}

fn expect_bool(input: &[u8], cursor: &mut usize) -> (r: Result<bool, DeserializeError>)
    requires
        *old(cursor) <= input@.len(),
    ensures
        outcome(r, *final(cursor), des_bool(input@, *old(cursor) as int)),
        *final(cursor) <= input@.len(),
{
    if *cursor >= input.len() {
        return end_of_input("Expected 1 byte for boolean value");
    }
    let byte = input[*cursor];
    *cursor = *cursor + 1;
    if byte == 0 {
        Ok(false)
    } else if byte == 1 {
        Ok(true)
    } else {
        let mut details = message("Invalid boolean value byte: ");
        push_decimal(&mut details, byte as u64);
        Err(DeserializeError::Unsupported { details })
    }
}

fn expect_i8(input: &[u8], cursor: &mut usize) -> (r: Result<i8, DeserializeError>)
    requires
        *old(cursor) <= input@.len(),
    ensures
        outcome(r, *final(cursor), des_i8(input@, *old(cursor) as int)),
        *final(cursor) <= input@.len(),
{
    if *cursor >= input.len() {
        return end_of_input("Expected 1 byte for i8 value");
    }
    let byte = input[*cursor];
    *cursor = *cursor + 1;
    Ok(byte as i8)
}

fn expect_i16(input: &[u8], cursor: &mut usize) -> (r: Result<i16, DeserializeError>)
    requires
        *old(cursor) <= input@.len(),
    ensures
        outcome(r, *final(cursor), des_i16(input@, *old(cursor) as int)),
        *final(cursor) <= input@.len(),
{
    if input.len() - *cursor < 2 {
        return end_of_input("Expected 2 bytes for i16 value");
    }
    let u = read_be(input, *cursor, 2);
    proof {
        lemma_p256_values();
        lemma_be_value_bound(input@.subrange(*cursor as int, *cursor + 2));
    }
    let v: i16 = if u >= 0x8000 {
        (u as i64 - 0x10000) as i16
    } else {
        u as i16
    };
    *cursor = *cursor + 2;
    Ok(v)
}

fn expect_i32(input: &[u8], cursor: &mut usize) -> (r: Result<i32, DeserializeError>)
    requires
        *old(cursor) <= input@.len(),
    ensures
        outcome(r, *final(cursor), des_i32(input@, *old(cursor) as int)),
        *final(cursor) <= input@.len(),
{
    if input.len() - *cursor < 4 {
        return end_of_input("Expected 4 bytes for i32 value");
    }
    let u = read_be(input, *cursor, 4);
    proof {
        lemma_p256_values();
        lemma_be_value_bound(input@.subrange(*cursor as int, *cursor + 4));
    }
    let v: i32 = if u >= 0x8000_0000 {
        (u as i64 - 0x1_0000_0000) as i32
    } else {
        u as i32
    };
    *cursor = *cursor + 4;
    Ok(v)
}

fn expect_number(input: &[u8], cursor: &mut usize) -> (r: Result<u64, DeserializeError>)
    requires
        *old(cursor) <= input@.len(),
    ensures
        outcome(r, *final(cursor), des_number(input@, *old(cursor) as int)),
        *final(cursor) <= input@.len(),
{
    if input.len() - *cursor < 8 {
        return end_of_input("Expected 8 bytes for f64 value");
    }
    let u = read_be(input, *cursor, 8);
    *cursor = *cursor + 8;
    Ok(u)
}

fn expect_bytes<'a>(input: &'a [u8], cursor: &mut usize, size: usize) -> (r: Result<&'a [u8], DeserializeError>)
    requires
        *old(cursor) <= input@.len(),
    ensures
        *final(cursor) <= input@.len(),
        match des_bytes(input@, *old(cursor) as int, size as nat) {
            Ok((v, p)) => r matches Ok(x) && x@ == v && *final(cursor) == p,
            Err(e) => r matches Err(x) && x@ == e,
        },
{
    if input.len() - *cursor < size {
        let mut details = message("Expected ");
        push_decimal(&mut details, size as u64);
        push_str(&mut details, " bytes");
        return Err(DeserializeError::UnexpectedEndOfInput { details });
    }
    let bytes = vstd::slice::slice_subrange(input, *cursor, *cursor + size);
    *cursor = *cursor + size;
    Ok(bytes)
}

fn ascii_string(bytes: &[u8]) -> (r: Result<String, DeserializeError>)
    ensures
        all_ascii(bytes@) ==> (r matches Ok(s) && s@ == ascii_chars(bytes@)),
        !all_ascii(bytes@) ==> (r matches Err(e) && e@ == DeserializeErrorModel::InvalidAsciiString),
{
    let mut s = String::new();
    let mut i: usize = 0;
    while i < bytes.len()
        invariant
            i <= bytes@.len(),
            all_ascii(bytes@.subrange(0, i as int)),
            s@ == ascii_chars(bytes@.subrange(0, i as int)),
        decreases bytes@.len() - i,
    {
        let b = bytes[i];
        if b > 0x7F {
            return Err(DeserializeError::InvalidAsciiString);
        }
        push_char(&mut s, b as char);
        i = i + 1;
        assert(s@ =~= ascii_chars(bytes@.subrange(0, i as int)));
    }
    assert(bytes@.subrange(0, bytes@.len() as int) =~= bytes@);
    Ok(s)
}

fn units_of(bytes: &[u8]) -> (u: Vec<u16>)
    requires
        bytes@.len() % 2 == 0,
    ensures
        u@ == be_units(bytes@),
{
    let mut u: Vec<u16> = Vec::new();
    let mut i: usize = 0;
    let len = bytes.len();
    let n = len / 2;
    while i < n
        invariant
            len == bytes@.len(),
            n == bytes@.len() / 2,
            bytes@.len() % 2 == 0,
            i <= n,
            u@ == be_units(bytes@).take(i as int),
        decreases n - i,
    {
        let hi = bytes[2 * i];
        let lo = bytes[2 * i + 1];
        u.push((hi as u16) * 256 + lo as u16);
        i = i + 1;
        assert(u@ =~= be_units(bytes@).take(i as int));
    }
    assert(be_units(bytes@).take(n as int) =~= be_units(bytes@));
    u
}

fn expect_string(input: &[u8], cursor: &mut usize) -> (r: Result<String, DeserializeError>)
    requires
        *old(cursor) <= input@.len(),
    ensures
        outcome(r, *final(cursor), des_string(input@, *old(cursor) as int)),
        *final(cursor) <= input@.len(),
{
    let length = expect_i16(input, cursor)?;
    if length >= 0 {
        let bytes = expect_bytes(input, cursor, length as usize)?;
        ascii_string(bytes)
    } else if length == -1 {
        let count = expect_i16(input, cursor)?;
        if count < 0 {
            let mut details = message("Negative UTF-16 string length is not supported: ");
            push_signed_decimal(&mut details, count as i64);
            return Err(DeserializeError::Unsupported { details });
        }
        let bytes = expect_bytes(input, cursor, count as usize * 2)?;
        let units = units_of(bytes);
        match string_from_utf16(units.as_slice()) {
            Ok(s) => Ok(s),
            Err(e) => Err(DeserializeError::InvalidUtf16String { source: e }),
        }
    } else {
        let mut details = message("Negative string length is not supported: ");
        push_signed_decimal(&mut details, length as i64);
        Err(DeserializeError::Unsupported { details })
    }
}

fn expect_tier_kind(input: &[u8], cursor: &mut usize) -> (r: Result<TextGridTierKind, DeserializeError>)
    requires
        *old(cursor) <= input@.len(),
    ensures
        outcome(r, *final(cursor), des_tier_kind(input@, *old(cursor) as int)),
        *final(cursor) <= input@.len(),
{
    let size = expect_i8(input, cursor)?;
    let bytes = expect_bytes(input, cursor, size as usize)?;
    match TextGridTierKind::from_bytes(bytes) {
        Some(kind) => Ok(kind),
        None => Err(DeserializeError::UnsupportedTierClass { name: string_from_utf8_lossy(bytes) }),
    }
}

fn expect_interval(input: &[u8], cursor: &mut usize) -> (r: Result<
    TextGridInterval<u64>,
    DeserializeError,
>)
    requires
        *old(cursor) <= input@.len(),
    ensures
        outcome(r, *final(cursor), des_interval(input@, *old(cursor) as int)),
        *final(cursor) <= input@.len(),
{
    let xmin = expect_number(input, cursor)?;
    let xmax = expect_number(input, cursor)?;
    let text = expect_string(input, cursor)?;
    Ok(TextGridInterval { xmin, xmax, text })
}

fn expect_point(input: &[u8], cursor: &mut usize) -> (r: Result<
    TextGridPoint<u64>,
    DeserializeError,
>)
    requires
        *old(cursor) <= input@.len(),
    ensures
        outcome(r, *final(cursor), des_point(input@, *old(cursor) as int)),
        *final(cursor) <= input@.len(),
{
    let number = expect_number(input, cursor)?;
    let mark = expect_string(input, cursor)?;
    Ok(TextGridPoint { number, mark })
}

/// Appending one read item to the items read so far.
proof fn lemma_prepend_step<T>(acc: Seq<T>, v: T, r: DesResult<Seq<T>>)
    ensures
        prepend_all(acc, prepend(v, r)) == prepend_all(acc.push(v), r),
{
    match r {
        Ok((vs, p)) => {
            assert(acc + (seq![v] + vs) =~= acc.push(v) + vs);
        },
        Err(_) => {},
    }
}

/// Puts `acc` in front of the sequence of a successful outcome.
pub open spec fn prepend_all<T>(acc: Seq<T>, r: DesResult<Seq<T>>) -> DesResult<Seq<T>> {
    match r {
        Ok((vs, p)) => Ok((acc + vs, p)),
        Err(e) => Err(e),
    }
}

fn expect_intervals(input: &[u8], cursor: &mut usize, n: usize) -> (r: Result<
    Vec<TextGridInterval<u64>>,
    DeserializeError,
>)
    requires
        *old(cursor) <= input@.len(),
    ensures
        *final(cursor) <= input@.len(),
        match des_intervals(input@, *old(cursor) as int, n as nat) {
            Ok((v, p)) => r matches Ok(x) && intervals_view(x@) == v && *final(cursor) == p,
            Err(e) => r matches Err(x) && x@ == e,
        },
{
    let mut items: Vec<TextGridInterval<u64>> = Vec::new();
    let mut i: usize = 0;
    assert(intervals_view(items@) =~= Seq::<IntervalModel<u64>>::empty());
    while i < n
        invariant
            i <= n,
            *cursor <= input@.len(),
            des_intervals(input@, *old(cursor) as int, n as nat) == prepend_all(
                intervals_view(items@),
                des_intervals(input@, *cursor as int, (n - i) as nat),
            ),
        decreases n - i,
    {
        let ghost before = *cursor;
        let item = expect_interval(input, cursor)?;
        proof {
            lemma_prepend_step(
                intervals_view(items@),
                item@,
                des_intervals(input@, *cursor as int, (n - i - 1) as nat),
            );
        }
        let ghost prev = items@;
        let ghost item_view = item@;
        items.push(item);
        assert(intervals_view(items@) =~= intervals_view(prev).push(item_view));
        i = i + 1;
    }
    proof {
        let v = intervals_view(items@);
        assert(v + Seq::<IntervalModel<u64>>::empty() =~= v);
    }
    Ok(items)
}

fn expect_points(input: &[u8], cursor: &mut usize, n: usize) -> (r: Result<
    Vec<TextGridPoint<u64>>,
    DeserializeError,
>)
    requires
        *old(cursor) <= input@.len(),
    ensures
        *final(cursor) <= input@.len(),
        match des_points(input@, *old(cursor) as int, n as nat) {
            Ok((v, p)) => r matches Ok(x) && points_view(x@) == v && *final(cursor) == p,
            Err(e) => r matches Err(x) && x@ == e,
        },
{
    let mut items: Vec<TextGridPoint<u64>> = Vec::new();
    let mut i: usize = 0;
    assert(points_view(items@) =~= Seq::<PointModel<u64>>::empty());
    while i < n
        invariant
            i <= n,
            *cursor <= input@.len(),
            des_points(input@, *old(cursor) as int, n as nat) == prepend_all(
                points_view(items@),
                des_points(input@, *cursor as int, (n - i) as nat),
            ),
        decreases n - i,
    {
        let item = expect_point(input, cursor)?;
        proof {
            lemma_prepend_step(
                points_view(items@),
                item@,
                des_points(input@, *cursor as int, (n - i - 1) as nat),
            );
        }
        let ghost prev = items@;
        let ghost item_view = item@;
        items.push(item);
        assert(points_view(items@) =~= points_view(prev).push(item_view));
        i = i + 1;
    }
    proof {
        let v = points_view(items@);
        assert(v + Seq::<PointModel<u64>>::empty() =~= v);
    }
    Ok(items)
}

fn expect_tier(input: &[u8], cursor: &mut usize) -> (r: Result<TextGridTier<u64>, DeserializeError>)
    requires
        *old(cursor) <= input@.len(),
    ensures
        outcome(r, *final(cursor), des_tier(input@, *old(cursor) as int)),
        *final(cursor) <= input@.len(),
{
    let kind = expect_tier_kind(input, cursor)?;
    let name = expect_string(input, cursor)?;
    let xmin = expect_number(input, cursor)?;
    let xmax = expect_number(input, cursor)?;
    let size = expect_i32(input, cursor)?;
    if size < 0 {
        let mut details = message("Items in tiers do not support negative size: ");
        push_signed_decimal(&mut details, size as i64);
        return Err(DeserializeError::Unsupported { details });
    }
    match kind {
        TextGridTierKind::IntervalTier => {
            let intervals = expect_intervals(input, cursor, size as usize)?;
            Ok(TextGridTier::IntervalTier(TextGridIntervalTier { name, xmin, xmax, intervals }))
        },
        TextGridTierKind::TextTier => {
            let points = expect_points(input, cursor, size as usize)?;
            Ok(TextGridTier::TextTier(TextGridTextTier { name, xmin, xmax, points }))
        },
    }
}

fn expect_tiers(input: &[u8], cursor: &mut usize, n: usize) -> (r: Result<
    Vec<TextGridTier<u64>>,
    DeserializeError,
>)
    requires
        *old(cursor) <= input@.len(),
    ensures
        *final(cursor) <= input@.len(),
        match des_tiers(input@, *old(cursor) as int, n as nat) {
            Ok((v, p)) => r matches Ok(x) && tiers_view(x@) == v && *final(cursor) == p,
            Err(e) => r matches Err(x) && x@ == e,
        },
{
    let mut items: Vec<TextGridTier<u64>> = Vec::new();
    let mut i: usize = 0;
    assert(tiers_view(items@) =~= Seq::<TierModel<u64>>::empty());
    while i < n
        invariant
            i <= n,
            *cursor <= input@.len(),
            des_tiers(input@, *old(cursor) as int, n as nat) == prepend_all(
                tiers_view(items@),
                des_tiers(input@, *cursor as int, (n - i) as nat),
            ),
        decreases n - i,
    {
        let item = expect_tier(input, cursor)?;
        proof {
            lemma_prepend_step(
                tiers_view(items@),
                item@,
                des_tiers(input@, *cursor as int, (n - i - 1) as nat),
            );
        }
        let ghost prev = items@;
        let ghost item_view = item@;
        items.push(item);
        assert(tiers_view(items@) =~= tiers_view(prev).push(item_view));
        i = i + 1;
    }
    proof {
        let v = tiers_view(items@);
        assert(v + Seq::<TierModel<u64>>::empty() =~= v);
    }
    Ok(items)
}

fn starts_with_at(input: &[u8], pos: usize, prefix: &[u8]) -> (r: bool)
    requires
        pos <= input@.len(),
    ensures
        r == (input@.len() >= pos + prefix@.len() && input@.subrange(
            pos as int,
            pos + prefix@.len(),
        ) == prefix@),
{
    if input.len() - pos < prefix.len() {
        return false;
    }
    let mut i: usize = 0;
    let len = input.len();
    while i < prefix.len()
        invariant
            len == input@.len(),
            pos + prefix@.len() <= input@.len(),
            i <= prefix@.len(),
            forall|j: int| 0 <= j < i ==> input@[pos + j] == prefix@[j],
        decreases prefix@.len() - i,
    {
        if input[pos + i] != prefix[i] {
            assert(input@.subrange(pos as int, pos + prefix@.len())[i as int] != prefix@[i as int]);
            return false;
        }
        i = i + 1;
    }
    assert(input@.subrange(pos as int, pos + prefix@.len()) =~= prefix@);
    true
}

/// The bytes `ooBinaryFile`.
pub(crate) fn magic_bytes() -> (r: &'static [u8])
    ensures
        r@ == oo_binary_file_magic(),
{
    let s = "ooBinaryFile";
    proof {
        reveal_strlit("ooBinaryFile");
        vstd::string::is_ascii_spec_bytes(s);
    }
    let b = s.as_bytes();
    assert(b@ =~= oo_binary_file_magic());
    b
}

/// The bytes `TextGrid`.
pub(crate) fn class_name_bytes() -> (r: &'static [u8])
    ensures
        r@ == object_class_name(),
{
    let s = "TextGrid";
    proof {
        reveal_strlit("TextGrid");
        vstd::string::is_ascii_spec_bytes(s);
    }
    let b = s.as_bytes();
    assert(b@ =~= object_class_name());
    b
}

/// Reads a TextGrid from the binary format. Succeeds exactly when
/// `spec_deserialize` gives a TextGrid, and then returns that TextGrid;
/// otherwise returns the error that `spec_deserialize` gives.
pub fn deserialize(input: &[u8]) -> (r: Result<TextGrid<u64>, DeserializeError>)
    ensures
        match spec_deserialize(input@) {
            Ok(g) => r matches Ok(x) && x@ == g,
            Err(e) => r matches Err(x) && x@ == e,
        },
{
    let magic = magic_bytes();
    let class = class_name_bytes();
    proof {
        reveal_strlit("ooBinaryFile");
        reveal_strlit("TextGrid");
    }
    if !starts_with_at(input, 0, magic) {
        return Err(DeserializeError::NotOoBinaryFile);
    }
    let mut cursor: usize = magic.len();
    if cursor >= input.len() {
        return end_of_input("Expected object class name length byte");
    }
    let n = input[cursor];
    if n as usize != class.len() {
        return Err(DeserializeError::NotTextGridFile);
    }
    cursor = cursor + 1;
    if !starts_with_at(input, cursor, class) {
        return Err(DeserializeError::NotTextGridFile);
    }
    cursor = cursor + class.len();
    assert(des_header(input@) == Ok::<int, DeserializeErrorModel>(cursor as int));

    let xmin = expect_number(input, &mut cursor)?;
    let xmax = expect_number(input, &mut cursor)?;
    let exists = expect_bool(input, &mut cursor)?;
    if !exists {
        let tiers: Vec<TextGridTier<u64>> = Vec::new();
        assert(tiers_view(tiers@) =~= Seq::<TierModel<u64>>::empty());
        return Ok(TextGrid { xmin, xmax, tiers });
    }
    let size = expect_i32(input, &mut cursor)?;
    if size < 0 {
        let mut details = message("Negative tier size is not supported: ");
        push_signed_decimal(&mut details, size as i64);
        return Err(DeserializeError::Unsupported { details });
    }
    let tiers = expect_tiers(input, &mut cursor, size as usize)?;
    Ok(TextGrid { xmin, xmax, tiers })
}

} // verus!
