use vocha::binary_format::deserializer::{deserialize, DeserializeError};
use vocha::binary_format::serializer::{serialize, SerializeError};
use vocha::model::{
    TextGrid, TextGridInterval, TextGridIntervalTier, TextGridPoint, TextGridTextTier,
    TextGridTier,
};

fn de_err(input: &[u8]) -> String {
    format!("{:?}", deserialize(input).unwrap_err())
}

fn dbg(e: DeserializeError) -> String {
    format!("{:?}", e)
}

fn grid() -> TextGrid<u64> {
    TextGrid {
        xmin: 0f64.to_bits(),
        xmax: 2.5f64.to_bits(),
        tiers: vec![
            TextGridTier::IntervalTier(TextGridIntervalTier {
                name: "words".to_string(),
                xmin: 0f64.to_bits(),
                xmax: 2.5f64.to_bits(),
                intervals: vec![TextGridInterval {
                    xmin: 0f64.to_bits(),
                    xmax: 2.5f64.to_bits(),
                    text: "hi".to_string(),
                }],
            }),
            TextGridTier::TextTier(TextGridTextTier {
                name: "ĉu".to_string(),
                xmin: 0f64.to_bits(),
                xmax: 2.5f64.to_bits(),
                points: vec![TextGridPoint { number: 1.25f64.to_bits(), mark: "中".to_string() }],
            }),
        ],
    }
}

#[test]
fn binary_round_trip() {
    let g = grid();
    let bytes = serialize(&g).unwrap();
    assert_eq!(deserialize(&bytes).unwrap(), g);
    assert_eq!(TextGrid::deserialize_binary_format(&g.serialize_binary_format().unwrap()).unwrap(), g);
}

#[test]
fn binary_header_bytes() {
    let g = TextGrid { xmin: 0f64.to_bits(), xmax: 1f64.to_bits(), tiers: vec![] };
    let bytes = serialize(&g).unwrap();
    let mut expected = b"ooBinaryFile".to_vec();
    expected.push(8);
    expected.extend_from_slice(b"TextGrid");
    expected.extend_from_slice(&0f64.to_be_bytes());
    expected.extend_from_slice(&1f64.to_be_bytes());
    expected.push(1);
    expected.extend_from_slice(&0i32.to_be_bytes());
    assert_eq!(bytes, expected);
}

#[test]
fn binary_errors() {
    assert_eq!(de_err(b"nope"), dbg(DeserializeError::NotOoBinaryFile));
    let mut not_grid = b"ooBinaryFile".to_vec();
    not_grid.push(3);
    not_grid.extend_from_slice(b"Foo");
    assert_eq!(de_err(&not_grid), dbg(DeserializeError::NotTextGridFile));
    let long = "x".repeat(0x8000);
    let g = TextGrid {
        xmin: 0,
        xmax: 0,
        tiers: vec![TextGridTier::TextTier(TextGridTextTier {
            name: long,
            xmin: 0,
            xmax: 0,
            points: vec![],
        })],
    };
    assert_eq!(
        serialize(&g),
        Err(SerializeError::StringLengthOverflow { allowed: 0x7FFF, actual: 0x8000 })
    );
}

fn header() -> Vec<u8> {
    let mut v = b"ooBinaryFile".to_vec();
    v.push(8);
    v.extend_from_slice(b"TextGrid");
    v.extend_from_slice(&0f64.to_be_bytes());
    v.extend_from_slice(&1f64.to_be_bytes());
    v
}

fn with_text_tier(name_bytes: &[u8]) -> Vec<u8> {
    let mut v = header();
    v.push(1);
    v.extend_from_slice(&1i32.to_be_bytes());
    v.push(8);
    v.extend_from_slice(b"TextTier");
    v.extend_from_slice(name_bytes);
    v
}

#[test]
fn binary_header_errors() {
    assert_eq!(
        de_err(&header()),
        dbg(DeserializeError::UnexpectedEndOfInput { details: "Expected 1 byte for boolean value".to_string() })
    );
    let mut v = header();
    v.push(2);
    assert_eq!(
        de_err(&v),
        dbg(DeserializeError::Unsupported { details: "Invalid boolean value byte: 2".to_string() })
    );
    let mut v = header();
    v.push(0);
    assert_eq!(deserialize(&v).unwrap().tiers.len(), 0);
    let mut v = header();
    v.push(1);
    v.extend_from_slice(&(-1i32).to_be_bytes());
    assert_eq!(
        de_err(&v),
        dbg(DeserializeError::Unsupported { details: "Negative tier size is not supported: -1".to_string() })
    );
}

#[test]
fn binary_tier_errors() {
    let mut v = header();
    v.push(1);
    v.extend_from_slice(&1i32.to_be_bytes());
    v.push(3);
    v.extend_from_slice(b"Foo");
    assert_eq!(de_err(&v), dbg(DeserializeError::UnsupportedTierClass { name: "Foo".to_string() }));

    let mut v = header();
    v.push(1);
    v.extend_from_slice(&1i32.to_be_bytes());
    v.push(0xFF);
    assert_eq!(
        de_err(&v),
        dbg(DeserializeError::UnexpectedEndOfInput { details: format!("Expected {} bytes", usize::MAX) })
    );

    let mut name = 1i16.to_be_bytes().to_vec();
    name.push(0xC3);
    assert_eq!(de_err(&with_text_tier(&name)), dbg(DeserializeError::InvalidAsciiString));

    let mut name = (-1i16).to_be_bytes().to_vec();
    name.extend_from_slice(&1i16.to_be_bytes());
    name.extend_from_slice(&[0xD8, 0x00]);
    assert_eq!(de_err(&with_text_tier(&name)), dbg(DeserializeError::InvalidUtf16String { source: String::from_utf16(&[0xD800]).unwrap_err() }));

    let name = (-2i16).to_be_bytes().to_vec();
    assert_eq!(
        de_err(&with_text_tier(&name)),
        dbg(DeserializeError::Unsupported { details: "Negative string length is not supported: -2".to_string() })
    );

    let mut name = 0i16.to_be_bytes().to_vec();
    name.extend_from_slice(&0f64.to_be_bytes());
    name.extend_from_slice(&1f64.to_be_bytes());
    name.extend_from_slice(&(-1i32).to_be_bytes());
    assert_eq!(
        de_err(&with_text_tier(&name)),
        dbg(DeserializeError::Unsupported {
            details: "Items in tiers do not support negative size: -1".to_string()
        })
    );
}

fn sample_bytes() -> Vec<u8> {
    let mut v = header();
    v.push(1);
    v.extend_from_slice(&1i32.to_be_bytes());
    v.push(12);
    v.extend_from_slice(b"IntervalTier");
    v.extend_from_slice(&2i16.to_be_bytes());
    v.extend_from_slice(b"ab");
    v.extend_from_slice(&0f64.to_be_bytes());
    v.extend_from_slice(&1f64.to_be_bytes());
    v.extend_from_slice(&1i32.to_be_bytes());
    v.extend_from_slice(&0f64.to_be_bytes());
    v.extend_from_slice(&1f64.to_be_bytes());
    v.extend_from_slice(&(-1i16).to_be_bytes());
    v.extend_from_slice(&1i16.to_be_bytes());
    v.extend_from_slice(&[0x4E, 0x2D]);
    v
}

fn sample_grid() -> TextGrid<u64> {
    TextGrid {
        xmin: 0f64.to_bits(),
        xmax: 1f64.to_bits(),
        tiers: vec![TextGridTier::IntervalTier(TextGridIntervalTier {
            name: "ab".to_string(),
            xmin: 0f64.to_bits(),
            xmax: 1f64.to_bits(),
            intervals: vec![TextGridInterval {
                xmin: 0f64.to_bits(),
                xmax: 1f64.to_bits(),
                text: "中".to_string(),
            }],
        })],
    }
}

#[test]
fn test_deserialize() {
    assert_eq!(deserialize(&sample_bytes()).unwrap(), sample_grid());
}

#[test]
fn test_serialize() {
    assert_eq!(serialize(&sample_grid()).unwrap(), sample_bytes());
}

#[test]
fn trailing_bytes_are_ignored() {
    let mut v = sample_bytes();
    v.extend_from_slice(b"anything after");
    assert_eq!(deserialize(&v).unwrap(), sample_grid());
}
