use vocha::model::{
    TextGrid, TextGridInterval, TextGridIntervalTier, TextGridPoint, TextGridTextTier,
    TextGridTier,
};
use vocha::text_format::escape::escape_text;
use vocha::text_format::parser::{parse, ParseError};
use vocha::text_format::stringifier::{stringify_long, stringify_short};
use vocha::text_format::tokenizer::{TokenKind, TokenizeError};
use vocha::text_grid::TextFormatParseErrorEx;

fn s(x: &str) -> String {
    x.to_string()
}

fn sample_grids() -> Vec<TextGrid<String>> {
    vec![
        TextGrid { xmin: s("0"), xmax: s("2.5"), tiers: vec![] },
        TextGrid {
            xmin: s("0"),
            xmax: s("2.3"),
            tiers: vec![
                TextGridTier::IntervalTier(TextGridIntervalTier {
                    name: s("words"),
                    xmin: s("0"),
                    xmax: s("2.3"),
                    intervals: vec![
                        TextGridInterval { xmin: s("0"), xmax: s("1.1"), text: s("") },
                        TextGridInterval {
                            xmin: s("1.1"),
                            xmax: s("2.3"),
                            text: s("say \"hello\" [x] <y> !z"),
                        },
                    ],
                }),
                TextGridTier::TextTier(TextGridTextTier {
                    name: s("bells"),
                    xmin: s("0"),
                    xmax: s("2.3"),
                    points: vec![
                        TextGridPoint { number: s("0.9"), mark: s("ding") },
                        TextGridPoint { number: s("1.5"), mark: s("中文 ĉ") },
                    ],
                }),
            ],
        },
        TextGrid {
            xmin: s("-1"),
            xmax: s("10"),
            tiers: vec![TextGridTier::IntervalTier(TextGridIntervalTier {
                name: s(""),
                xmin: s("-1"),
                xmax: s("10"),
                intervals: vec![],
            })],
        },
    ]
}

#[test]
fn test_stringify_long() {
    for input in sample_grids() {
        let stringified = stringify_long(&input);
        let reparsed = TextGrid::parse_text_format_utf8(&stringified).unwrap();
        assert_eq!(input, reparsed);
    }
}

#[test]
fn test_stringify_short() {
    for input in sample_grids() {
        let stringified = stringify_short(&input);
        let reparsed = TextGrid::parse_text_format_utf8(&stringified).unwrap();
        assert_eq!(input, reparsed);
    }
}

#[test]
fn stringify_long_exact_text() {
    let g = TextGrid {
        xmin: s("0"),
        xmax: s("1"),
        tiers: vec![TextGridTier::TextTier(TextGridTextTier {
            name: s("p"),
            xmin: s("0"),
            xmax: s("1"),
            points: vec![TextGridPoint { number: s("0.5"), mark: s("a\"b") }],
        })],
    };
    let expected = "File type = \"ooTextFile\"\nObject class = \"TextGrid\"\n\nxmin = 0\nxmax = 1\ntiers? <exists>\nsize = 1\nitem []:\n    item [1]:\n        class = \"TextTier\"\n        name = \"p\"\n        xmin = 0\n        xmax = 1\n        points: size = 1\n        points [1]:\n            number = 0.5\n            mark = \"a\"\"b\"\n";
    assert_eq!(stringify_long(&g), expected);
    assert_eq!(g.stringify_long(), expected);
}

#[test]
fn stringify_short_exact_text() {
    let g = TextGrid {
        xmin: s("0"),
        xmax: s("1"),
        tiers: vec![TextGridTier::IntervalTier(TextGridIntervalTier {
            name: s("w"),
            xmin: s("0"),
            xmax: s("1"),
            intervals: vec![TextGridInterval { xmin: s("0"), xmax: s("1"), text: s("x") }],
        })],
    };
    let expected = "\"ooTextFile\"\n\"TextGrid\"\n0 1 <exists> 1\n\"IntervalTier\" \"w\" 0 1 1\n0 1 \"x\"\n";
    assert_eq!(stringify_short(&g), expected);
    assert_eq!(g.stringify_short(), expected);
}

#[test]
fn escape_text_doubles_quotes() {
    assert_eq!(escape_text("a\"b\"\""), "a\"\"b\"\"\"\"");
    assert_eq!(escape_text("plain"), "plain");
}

#[test]
fn parse_absent_tiers() {
    let g = parse("\"ooTextFile\" \"TextGrid\" 0 3 <absent>").unwrap();
    assert_eq!(g, TextGrid { xmin: s("0"), xmax: s("3"), tiers: vec![] });
    let g = parse("\"ooTextFile\" \"TextGrid\" 0 3").unwrap();
    assert_eq!(g.tiers.len(), 0);
}

#[test]
fn parse_comments_and_labels_are_skipped() {
    let g = parse("! a comment 1 2 3\n\"ooTextFile\" [label 5] \"TextGrid\" 0 3 0").unwrap();
    assert_eq!(g, TextGrid { xmin: s("0"), xmax: s("3"), tiers: vec![] });
}

#[test]
fn parse_errors() {
    assert_eq!(
        parse("\"ooTextFile\" \"TextGrid\" 0 3 <exists> 01"),
        Err(ParseError::Unsupported { details: s("Octal number literals are not supported: 01") })
    );
    assert_eq!(
        parse("\"ooTextFile\" \"TextGrid\" 0 3 -1"),
        Err(ParseError::Unsupported { details: s("Negative tier size is not supported: -1") })
    );
    assert_eq!(
        parse("\"ooTextFile\" \"TextGrid\" 0 3 1.5"),
        Err(ParseError::UnexpectedNonIntegerNumberToken { actual: s("1.5") })
    );
    assert_eq!(
        parse("\"ooTextFile\" \"Other\""),
        Err(ParseError::UnexpectedConstantToken { expected: "TextGrid", actual: s("Other") })
    );
    assert_eq!(
        parse("\"ooTextFile\" 5"),
        Err(ParseError::UnexpectedTokenKind { expected: TokenKind::Text, actual: TokenKind::Number })
    );
    assert_eq!(
        parse("\"ooTextFile\""),
        Err(ParseError::UnexpectedEndOfInput { details: s("Expected constant text token: TextGrid") })
    );
    assert_eq!(
        parse("\"ooTextFile\" \"TextGrid\" 0 3 1 \"Foo\""),
        Err(ParseError::UnsupportedTierClass { name: s("Foo") })
    );
    assert_eq!(
        parse("\"ooTextFile\" <nope>"),
        Err(ParseError::TokenizeError { source: TokenizeError::UnknwonFlag { range: 14..18 } })
    );
    assert_eq!(
        parse("\"ooTextFile"),
        Err(ParseError::TokenizeError { source: TokenizeError::PartialToken { range: 0..11 } })
    );
}

#[test]
fn parse_text_format_bytes() {
    let text = "\"ooTextFile\" \"TextGrid\" 0 1 <absent>";
    let expected = TextGrid { xmin: s("0"), xmax: s("1"), tiers: vec![] };
    assert_eq!(TextGrid::parse_text_format(text.as_bytes()).unwrap(), expected);
    let mut le = vec![0xFF, 0xFE];
    let mut be = vec![0xFE, 0xFF];
    for u in text.encode_utf16() {
        le.extend_from_slice(&u.to_le_bytes());
        be.extend_from_slice(&u.to_be_bytes());
    }
    assert_eq!(TextGrid::parse_text_format(&le).unwrap(), expected);
    assert_eq!(TextGrid::parse_text_format(&be).unwrap(), expected);
    assert!(matches!(
        TextGrid::parse_text_format(&[0xC3, 0x28]),
        Err(TextFormatParseErrorEx::TextFormatUtf8Error { .. })
    ));
    assert!(matches!(
        TextGrid::parse_text_format(&[0xFF, 0xFE, 0x00, 0xD8]),
        Err(TextFormatParseErrorEx::TextFormatFromUtf16Error { .. })
    ));
    assert!(matches!(
        TextGrid::parse_text_format(b"\"ooTextFile\" 1"),
        Err(TextFormatParseErrorEx::TextFormatParseError { .. })
    ));
}

#[test]
fn test_parse() {
    let long = "File type = \"ooTextFile\"\nObject class = \"TextGrid\"\n\nxmin = 0 \nxmax = 2.5 \ntiers? <exists> \nsize = 2 \nitem []: \n    item [1]:\n        class = \"IntervalTier\" \n        name = \"words\" \n        xmin = 0 \n        xmax = 2.5 \n        intervals: size = 2 \n        intervals [1]:\n            xmin = 0 \n            xmax = 1.25 \n            text = \"say \"\"hi\"\"\" \n        intervals [2]:\n            xmin = 1.25 \n            xmax = 2.5 \n            text = \"\" \n    item [2]:\n        class = \"TextTier\" \n        name = \"bells\" \n        xmin = 0 \n        xmax = 2.5 \n        points: size = 1 \n        points [1]:\n            number = 1 \n            mark = \"ding\" \n";
    let expected = TextGrid {
        xmin: s("0"),
        xmax: s("2.5"),
        tiers: vec![
            TextGridTier::IntervalTier(TextGridIntervalTier {
                name: s("words"),
                xmin: s("0"),
                xmax: s("2.5"),
                intervals: vec![
                    TextGridInterval { xmin: s("0"), xmax: s("1.25"), text: s("say \"hi\"") },
                    TextGridInterval { xmin: s("1.25"), xmax: s("2.5"), text: s("") },
                ],
            }),
            TextGridTier::TextTier(TextGridTextTier {
                name: s("bells"),
                xmin: s("0"),
                xmax: s("2.5"),
                points: vec![TextGridPoint { number: s("1"), mark: s("ding") }],
            }),
        ],
    };
    assert_eq!(TextGrid::parse_text_format(long.as_bytes()).unwrap(), expected);
    let short = "\"ooTextFile\"\n\"TextGrid\"\n0\n2.5\n<exists>\n2\n\"IntervalTier\"\n\"words\"\n0\n2.5\n2\n0\n1.25\n\"say \"\"hi\"\"\"\n1.25\n2.5\n\"\"\n\"TextTier\"\n\"bells\"\n0\n2.5\n1\n1\n\"ding\"\n";
    assert_eq!(TextGrid::parse_text_format(short.as_bytes()).unwrap(), expected);
}

#[test]
fn escape_text_lengthens_by_quotes() {
    let t = "a\"\"b\"";
    let e = escape_text(t);
    assert_eq!(e.chars().count(), t.chars().count() + 3);
    assert_eq!(e, "a\"\"\"\"b\"\"");
}
