//! Reading the text TextGrid format.
use vstd::prelude::*;

use crate::model::{
    intervals_view, kind_of_name, points_view, tiers_view, GridModel, IntervalModel, PointModel,
    TextGrid, TextGridInterval, TextGridIntervalTier, TextGridPoint, TextGridTextTier,
    TextGridTier, TextGridTierKind, TierModel,
};
use crate::text_format::escape::unescape;
use crate::text_format::integers::{might_be_octal, parse_i64};
use crate::text_format::tokenizer::{
    next_token, spec_kind, Token, TokenFlag, TokenKind, TokenizeError, Tokenizer,
};
use crate::textbuf::{push_signed_decimal, push_str, signed_decimal};

verus! {

/// Why a text is not a TextGrid this library reads.
#[derive(Debug, PartialEq)]
pub enum ParseError {
    TokenizeError { source: TokenizeError },
    UnexpectedTokenKind { expected: TokenKind, actual: TokenKind },
    UnexpectedNonIntegerNumberToken { actual: String },
    UnexpectedConstantToken { expected: &'static str, actual: String },
    UnexpectedEndOfInput { details: String },
    Unsupported { details: String },
    UnsupportedTierClass { name: String },
}

/// The value of a [`ParseError`].
pub enum ParseErrorModel {
    TokenizeError(TokenizeError),
    UnexpectedTokenKind(TokenKind, TokenKind),
    UnexpectedNonIntegerNumberToken(Seq<char>),
    UnexpectedConstantToken(Seq<char>, Seq<char>),
    UnexpectedEndOfInput(Seq<char>),
    Unsupported(Seq<char>),
    UnsupportedTierClass(Seq<char>),
}

impl View for ParseError {
    type V = ParseErrorModel;

    open spec fn view(&self) -> ParseErrorModel {
        match self {
            ParseError::TokenizeError { source } => ParseErrorModel::TokenizeError(*source),
            ParseError::UnexpectedTokenKind { expected, actual } => {
                ParseErrorModel::UnexpectedTokenKind(*expected, *actual)
            },
            ParseError::UnexpectedNonIntegerNumberToken { actual } => {
                ParseErrorModel::UnexpectedNonIntegerNumberToken(actual@)
            },
            ParseError::UnexpectedConstantToken { expected, actual } => {
                ParseErrorModel::UnexpectedConstantToken(expected@, actual@)
            },
            ParseError::UnexpectedEndOfInput { details } => {
                ParseErrorModel::UnexpectedEndOfInput(details@)
            },
            ParseError::Unsupported { details } => ParseErrorModel::Unsupported(details@),
            ParseError::UnsupportedTierClass { name } => ParseErrorModel::UnsupportedTierClass(
                name@,
            ),
        }
    }
}

/// The outcome of reading a value from a character index: the value and the
/// index after it, or an error.
pub type PResult<T> = Result<(T, int), ParseErrorModel>;

/// A quoted text, unescaped.
pub open spec fn p_text(cs: Seq<char>, i: int) -> PResult<Seq<char>> {
    let (t, j) = next_token(cs, i);
    match t {
        None => Err(ParseErrorModel::UnexpectedEndOfInput("Expected text token"@)),
        Some(Err(e)) => Err(ParseErrorModel::TokenizeError(e)),
        Some(Ok(Token::Text(r))) => Ok((unescape(cs.subrange(r.start as int, r.end as int)), j)),
        Some(Ok(tok)) => Err(ParseErrorModel::UnexpectedTokenKind(TokenKind::Text, spec_kind(tok))),
    }
}

/// A quoted text that must equal `expected`.
pub open spec fn p_constant(cs: Seq<char>, i: int, expected: Seq<char>) -> PResult<()> {
    let (t, j) = next_token(cs, i);
    match t {
        None => Err(
            ParseErrorModel::UnexpectedEndOfInput("Expected constant text token: "@ + expected),
        ),
        Some(Err(e)) => Err(ParseErrorModel::TokenizeError(e)),
        Some(Ok(Token::Text(r))) => {
            let actual = unescape(cs.subrange(r.start as int, r.end as int));
            if actual == expected {
                Ok(((), j))
            } else {
                Err(ParseErrorModel::UnexpectedConstantToken(expected, actual))
            }
        },
        Some(Ok(tok)) => Err(ParseErrorModel::UnexpectedTokenKind(TokenKind::Text, spec_kind(tok))),
    }
}

/// A number, kept as the text of its token.
pub open spec fn p_number(cs: Seq<char>, i: int) -> PResult<Seq<char>> {
    let (t, j) = next_token(cs, i);
    match t {
        None => Err(ParseErrorModel::UnexpectedEndOfInput("Expected number token"@)),
        Some(Err(e)) => Err(ParseErrorModel::TokenizeError(e)),
        Some(Ok(Token::Number(r))) => Ok((cs.subrange(r.start as int, r.end as int), j)),
        Some(Ok(tok)) => Err(
            ParseErrorModel::UnexpectedTokenKind(TokenKind::Number, spec_kind(tok)),
        ),
    }
}

/// An integer: a number token that is no possible octal literal and denotes an `i64`.
pub open spec fn p_integer(cs: Seq<char>, i: int) -> PResult<i64> {
    let (t, j) = next_token(cs, i);
    match t {
        None => Err(ParseErrorModel::UnexpectedEndOfInput("Expected integer number token"@)),
        Some(Err(e)) => Err(ParseErrorModel::TokenizeError(e)),
        Some(Ok(Token::Number(r))) => {
            let text = cs.subrange(r.start as int, r.end as int);
            if might_be_octal(text) {
                Err(
                    ParseErrorModel::Unsupported(
                        "Octal number literals are not supported: "@ + text,
                    ),
                )
            } else {
                match parse_i64(text) {
                    Some(v) => Ok((v, j)),
                    None => Err(ParseErrorModel::UnexpectedNonIntegerNumberToken(text)),
                }
            }
        },
        Some(Ok(tok)) => Err(
            ParseErrorModel::UnexpectedTokenKind(TokenKind::Number, spec_kind(tok)),
        ),
    }
}

/// Puts `v` in front of the sequence of a successful outcome.
pub open spec fn prepend<T>(v: T, r: PResult<Seq<T>>) -> PResult<Seq<T>> {
    match r {
        Ok((vs, p)) => Ok((seq![v] + vs, p)),
        Err(e) => Err(e),
    }
}

/// Puts `acc` in front of the sequence of a successful outcome.
pub open spec fn prepend_all<T>(acc: Seq<T>, r: PResult<Seq<T>>) -> PResult<Seq<T>> {
    match r {
        Ok((vs, p)) => Ok((acc + vs, p)),
        Err(e) => Err(e),
    }
}

/// An interval: two numbers and a text.
pub open spec fn p_interval(cs: Seq<char>, i: int) -> PResult<IntervalModel<Seq<char>>> {
    match p_number(cs, i) {
        Ok((xmin, i1)) => match p_number(cs, i1) {
            Ok((xmax, i2)) => match p_text(cs, i2) {
                Ok((text, i3)) => Ok((IntervalModel { xmin, xmax, text }, i3)),
                Err(e) => Err(e),
            },
            Err(e) => Err(e),
        },
        Err(e) => Err(e),
    }
}

/// A point: a number and a mark.
pub open spec fn p_point(cs: Seq<char>, i: int) -> PResult<PointModel<Seq<char>>> {
    match p_number(cs, i) {
        Ok((number, i1)) => match p_text(cs, i1) {
            Ok((mark, i2)) => Ok((PointModel { number, mark }, i2)),
            Err(e) => Err(e),
        },
        Err(e) => Err(e),
    }
}

/// `n` intervals.
pub open spec fn p_intervals(cs: Seq<char>, i: int, n: nat) -> PResult<Seq<IntervalModel<Seq<char>>>>
    decreases n,
{
    if n == 0 {
        Ok((seq![], i))
    } else {
        match p_interval(cs, i) {
            Ok((v, j)) => prepend(v, p_intervals(cs, j, (n - 1) as nat)),
            Err(e) => Err(e),
        }
    }
}

/// `n` points.
pub open spec fn p_points(cs: Seq<char>, i: int, n: nat) -> PResult<Seq<PointModel<Seq<char>>>>
    decreases n,
{
    if n == 0 {
        Ok((seq![], i))
    } else {
        match p_point(cs, i) {
            Ok((v, j)) => prepend(v, p_points(cs, j, (n - 1) as nat)),
            Err(e) => Err(e),
        }
    }
}

/// The rest of an interval tier after its class: name, time domain, size and intervals.
pub open spec fn p_interval_tier(cs: Seq<char>, i: int) -> PResult<TierModel<Seq<char>>> {
    match p_text(cs, i) {
        Ok((name, i1)) => match p_number(cs, i1) {
            Ok((xmin, i2)) => match p_number(cs, i2) {
                Ok((xmax, i3)) => match p_integer(cs, i3) {
                    Ok((n, i4)) => if n < 0 {
                        Err(
                            ParseErrorModel::Unsupported(
                                "Intervals do not support negative size: "@ + signed_decimal(
                                    n as int,
                                ),
                            ),
                        )
                    } else {
                        match p_intervals(cs, i4, n as nat) {
                            Ok((intervals, i5)) => Ok(
                                (TierModel::Interval { name, xmin, xmax, intervals }, i5),
                            ),
                            Err(e) => Err(e),
                        }
                    },
                    Err(e) => Err(e),
                },
                Err(e) => Err(e),
            },
            Err(e) => Err(e),
        },
        Err(e) => Err(e),
    }
}

/// The rest of a text tier after its class: name, time domain, size and points.
pub open spec fn p_text_tier(cs: Seq<char>, i: int) -> PResult<TierModel<Seq<char>>> {
    match p_text(cs, i) {
        Ok((name, i1)) => match p_number(cs, i1) {
            Ok((xmin, i2)) => match p_number(cs, i2) {
                Ok((xmax, i3)) => match p_integer(cs, i3) {
                    Ok((n, i4)) => if n < 0 {
                        Err(
                            ParseErrorModel::Unsupported(
                                "Points do not support negative size: "@ + signed_decimal(
                                    n as int,
                                ),
                            ),
                        )
                    } else {
                        match p_points(cs, i4, n as nat) {
                            Ok((points, i5)) => Ok(
                                (TierModel::Text { name, xmin, xmax, points }, i5),
                            ),
                            Err(e) => Err(e),
                        }
                    },
                    Err(e) => Err(e),
                },
                Err(e) => Err(e),
            },
            Err(e) => Err(e),
        },
        Err(e) => Err(e),
    }
}

/// A tier: its class name and the rest of the tier of that class.
pub open spec fn p_tier(cs: Seq<char>, i: int) -> PResult<TierModel<Seq<char>>> {
    match p_text(cs, i) {
        Ok((class, i1)) => match kind_of_name(class) {
            Some(TextGridTierKind::IntervalTier) => p_interval_tier(cs, i1),
            Some(TextGridTierKind::TextTier) => p_text_tier(cs, i1),
            None => Err(ParseErrorModel::UnsupportedTierClass(class)),
        },
        Err(e) => Err(e),
    }
}

/// `n` tiers.
pub open spec fn p_tiers(cs: Seq<char>, i: int, n: nat) -> PResult<Seq<TierModel<Seq<char>>>>
    decreases n,
{
    if n == 0 {
        Ok((seq![], i))
    } else {
        match p_tier(cs, i) {
            Ok((v, j)) => prepend(v, p_tiers(cs, j, (n - 1) as nat)),
            Err(e) => Err(e),
        }
    }
}

/// The tier count and the tiers of a TextGrid.
pub open spec fn p_tier_list(cs: Seq<char>, i: int) -> Result<Seq<TierModel<Seq<char>>>, ParseErrorModel> {
    match p_integer(cs, i) {
        Ok((n, i1)) => if n < 0 {
            Err(
                ParseErrorModel::Unsupported(
                    "Negative tier size is not supported: "@ + signed_decimal(n as int),
                ),
            )
        } else {
            match p_tiers(cs, i1, n as nat) {
                Ok((tiers, _)) => Ok(tiers),
                Err(e) => Err(e),
            }
        },
        Err(e) => Err(e),
    }
}

/// The TextGrid that a text holds, or why it holds none: the constant texts
/// `ooTextFile` and `TextGrid`, the time domain, then no tiers if the next
/// token is `<absent>` or there is none, else (after an optional `<exists>`)
/// the tier count and the tiers. Text after the last tier is ignored.
pub open spec fn spec_parse(cs: Seq<char>) -> Result<GridModel<Seq<char>>, ParseErrorModel> {
    match p_constant(cs, 0, "ooTextFile"@) {
        Ok((_, i1)) => match p_constant(cs, i1, "TextGrid"@) {
            Ok((_, i2)) => match p_number(cs, i2) {
                Ok((xmin, i3)) => match p_number(cs, i3) {
                    Ok((xmax, i4)) => {
                        let (t, j) = next_token(cs, i4);
                        match t {
                            Some(Ok(Token::Flag(TokenFlag::Exists))) => match p_tier_list(cs, j) {
                                Ok(tiers) => Ok(GridModel { xmin, xmax, tiers }),
                                Err(e) => Err(e),
                            },
                            Some(Ok(Token::Flag(TokenFlag::Absent))) => Ok(
                                GridModel { xmin, xmax, tiers: seq![] },
                            ),
                            None => Ok(GridModel { xmin, xmax, tiers: seq![] }),
                            _ => match p_tier_list(cs, i4) {
                                Ok(tiers) => Ok(GridModel { xmin, xmax, tiers }),
                                Err(e) => Err(e),
                            },
                        }
                    },
                    Err(e) => Err(e),
                },
                Err(e) => Err(e),
            },
            Err(e) => Err(e),
        },
        Err(e) => Err(e),
    }
}

// ---------------------------------------------------------------------------
// Executable reading.

/// Whether an executable result and tokenizer position agree with a
/// specified outcome.
pub open spec fn outcome<T: View>(r: Result<T, ParseError>, pos: int, s: PResult<T::V>) -> bool {
    match s {
        Ok((v, p)) => r matches Ok(x) && x@ == v && pos == p,
        Err(e) => r matches Err(x) && x@ == e,
    }
}

fn message(s: &str) -> (r: String)
    ensures
        r@ == s@,
{
    s.to_owned()
}

fn expect_constant_text_token(tok: &mut Tokenizer, expected: &'static str) -> (r: Result<(), ParseError>)
    requires
        old(tok).wf(),
    ensures
        final(tok).wf(),
        final(tok).input() == old(tok).input(),
        match p_constant(old(tok).input(), old(tok).position(), expected@) {
            Ok((_, p)) => r is Ok && final(tok).position() == p,
            Err(e) => r matches Err(x) && x@ == e,
        },
{
    match tok.next() {
        None => {
            let mut details = message("Expected constant text token: ");
            push_str(&mut details, expected);
            Err(ParseError::UnexpectedEndOfInput { details })
        },
        Some(Err(e)) => Err(ParseError::TokenizeError { source: e }),
        Some(Ok(Token::Text(r))) => {
            let actual = tok.text_of(r.start, r.end);
            let expected_chars = crate::textbuf::chars_of(expected);
            let actual_chars = crate::textbuf::chars_of(actual.as_str());
            if crate::textbuf::chars_eq(actual_chars.as_slice(), expected_chars.as_slice()) {
                Ok(())
            } else {
                Err(ParseError::UnexpectedConstantToken { expected, actual })
            }
        },
        Some(Ok(t)) => Err(ParseError::UnexpectedTokenKind { expected: TokenKind::Text, actual: t.kind() }),
    }
}

fn expect_text_token(tok: &mut Tokenizer) -> (r: Result<String, ParseError>)
    requires
        old(tok).wf(),
    ensures
        final(tok).wf(),
        final(tok).input() == old(tok).input(),
        outcome(r, final(tok).position(), p_text(old(tok).input(), old(tok).position())),
{
    match tok.next() {
        None => Err(ParseError::UnexpectedEndOfInput { details: message("Expected text token") }),
        Some(Err(e)) => Err(ParseError::TokenizeError { source: e }),
        Some(Ok(Token::Text(r))) => Ok(tok.text_of(r.start, r.end)),
        Some(Ok(t)) => Err(ParseError::UnexpectedTokenKind { expected: TokenKind::Text, actual: t.kind() }),
    }
}

fn expect_number_token(tok: &mut Tokenizer) -> (r: Result<String, ParseError>)
    requires
        old(tok).wf(),
    ensures
        final(tok).wf(),
        final(tok).input() == old(tok).input(),
        outcome(r, final(tok).position(), p_number(old(tok).input(), old(tok).position())),
{
    match tok.next() {
        None => Err(ParseError::UnexpectedEndOfInput { details: message("Expected number token") }),
        Some(Err(e)) => Err(ParseError::TokenizeError { source: e }),
        Some(Ok(Token::Number(r))) => Ok(tok.raw_of(r.start, r.end)),
        Some(Ok(t)) => Err(ParseError::UnexpectedTokenKind { expected: TokenKind::Number, actual: t.kind() }),
    }
}

fn expect_integer_number_token(tok: &mut Tokenizer) -> (r: Result<i64, ParseError>)
    requires
        old(tok).wf(),
    ensures
        final(tok).wf(),
        final(tok).input() == old(tok).input(),
        outcome(r, final(tok).position(), p_integer(old(tok).input(), old(tok).position())),
{
    match tok.next() {
        None => Err(ParseError::UnexpectedEndOfInput { details: message("Expected integer number token") }),
        Some(Err(e)) => Err(ParseError::TokenizeError { source: e }),
        Some(Ok(Token::Number(r))) => {
            if tok.might_be_octal_at(r.start, r.end) {
                let mut details = message("Octal number literals are not supported: ");
                let text = tok.raw_of(r.start, r.end);
                push_str(&mut details, text.as_str());
                return Err(ParseError::Unsupported { details });
            }
            match tok.i64_at(r.start, r.end) {
                Some(v) => Ok(v),
                None => Err(ParseError::UnexpectedNonIntegerNumberToken { actual: tok.raw_of(r.start, r.end) }),
            }
        },
        Some(Ok(t)) => Err(ParseError::UnexpectedTokenKind { expected: TokenKind::Number, actual: t.kind() }),
    }
}

fn parse_interval(tok: &mut Tokenizer) -> (r: Result<TextGridInterval<String>, ParseError>)
    requires
        old(tok).wf(),
    ensures
        final(tok).wf(),
        final(tok).input() == old(tok).input(),
        outcome(r, final(tok).position(), p_interval(old(tok).input(), old(tok).position())),
{
    let xmin = expect_number_token(tok)?;
    let xmax = expect_number_token(tok)?;
    let text = expect_text_token(tok)?;
    Ok(TextGridInterval { xmin, xmax, text })
}

fn parse_point(tok: &mut Tokenizer) -> (r: Result<TextGridPoint<String>, ParseError>)
    requires
        old(tok).wf(),
    ensures
        final(tok).wf(),
        final(tok).input() == old(tok).input(),
        outcome(r, final(tok).position(), p_point(old(tok).input(), old(tok).position())),
{
    let number = expect_number_token(tok)?;
    let mark = expect_text_token(tok)?;
    Ok(TextGridPoint { number, mark })
}

proof fn lemma_prepend_step<T>(acc: Seq<T>, v: T, r: PResult<Seq<T>>)
    ensures
        prepend_all(acc, prepend(v, r)) == prepend_all(acc.push(v), r),
{
    match r {
        Ok((vs, p)) => {
            assert(acc + (seq![v] + vs) =~= acc.push(v) + vs);
        },
        Err(_) => {},
    }
}

fn parse_intervals(tok: &mut Tokenizer, n: u64) -> (r: Result<Vec<TextGridInterval<String>>, ParseError>)
    requires
        old(tok).wf(),
    ensures
        final(tok).wf(),
        final(tok).input() == old(tok).input(),
        match p_intervals(old(tok).input(), old(tok).position(), n as nat) {
            Ok((v, p)) => r matches Ok(x) && intervals_view(x@) == v && final(tok).position() == p,
            Err(e) => r matches Err(x) && x@ == e,
        },
{
    let mut items: Vec<TextGridInterval<String>> = Vec::new();
    let mut i: u64 = 0;
    let ghost cs = tok.input();
    assert(intervals_view(items@) =~= Seq::<IntervalModel<Seq<char>>>::empty());
    while i < n
        invariant
            i <= n,
            tok.wf(),
            tok.input() == cs,
            cs == old(tok).input(),
            p_intervals(cs, old(tok).position(), n as nat) == prepend_all(
                intervals_view(items@),
                p_intervals(cs, tok.position(), (n - i) as nat),
            ),
        decreases n - i,
    {
        let item = parse_interval(tok)?;
        proof {
            lemma_prepend_step(intervals_view(items@), item@, p_intervals(cs, tok.position(), (n - i - 1) as nat));
        }
        let ghost prev = items@;
        let ghost item_view = item@;
        items.push(item);
        assert(intervals_view(items@) =~= intervals_view(prev).push(item_view));
        i = i + 1;
    }
    proof {
        let v = intervals_view(items@);
        assert(v + Seq::<IntervalModel<Seq<char>>>::empty() =~= v);
    }
    Ok(items)
}

fn parse_points(tok: &mut Tokenizer, n: u64) -> (r: Result<Vec<TextGridPoint<String>>, ParseError>)
    requires
        old(tok).wf(),
    ensures
        final(tok).wf(),
        final(tok).input() == old(tok).input(),
        match p_points(old(tok).input(), old(tok).position(), n as nat) {
            Ok((v, p)) => r matches Ok(x) && points_view(x@) == v && final(tok).position() == p,
            Err(e) => r matches Err(x) && x@ == e,
        },
{
    let mut items: Vec<TextGridPoint<String>> = Vec::new();
    let mut i: u64 = 0;
    let ghost cs = tok.input();
    assert(points_view(items@) =~= Seq::<PointModel<Seq<char>>>::empty());
    while i < n
        invariant
            i <= n,
            tok.wf(),
            tok.input() == cs,
            cs == old(tok).input(),
            p_points(cs, old(tok).position(), n as nat) == prepend_all(
                points_view(items@),
                p_points(cs, tok.position(), (n - i) as nat),
            ),
        decreases n - i,
    {
        let item = parse_point(tok)?;
        proof {
            lemma_prepend_step(points_view(items@), item@, p_points(cs, tok.position(), (n - i - 1) as nat));
        }
        let ghost prev = items@;
        let ghost item_view = item@;
        items.push(item);
        assert(points_view(items@) =~= points_view(prev).push(item_view));
        i = i + 1;
    }
    proof {
        let v = points_view(items@);
        assert(v + Seq::<PointModel<Seq<char>>>::empty() =~= v);
    }
    Ok(items)
}

fn parse_interval_tier(tok: &mut Tokenizer) -> (r: Result<TextGridTier<String>, ParseError>)
    requires
        old(tok).wf(),
    ensures
        final(tok).wf(),
        final(tok).input() == old(tok).input(),
        outcome(r, final(tok).position(), p_interval_tier(old(tok).input(), old(tok).position())),
{
    let name = expect_text_token(tok)?;
    let xmin = expect_number_token(tok)?;
    let xmax = expect_number_token(tok)?;
    let size = expect_integer_number_token(tok)?;
    if size < 0 {
        let mut details = message("Intervals do not support negative size: ");
        push_signed_decimal(&mut details, size);
        return Err(ParseError::Unsupported { details });
    }
    let intervals = parse_intervals(tok, size as u64)?;
    Ok(TextGridTier::IntervalTier(TextGridIntervalTier { name, xmin, xmax, intervals }))
}

fn parse_text_tier(tok: &mut Tokenizer) -> (r: Result<TextGridTier<String>, ParseError>)
    requires
        old(tok).wf(),
    ensures
        final(tok).wf(),
        final(tok).input() == old(tok).input(),
        outcome(r, final(tok).position(), p_text_tier(old(tok).input(), old(tok).position())),
{
    let name = expect_text_token(tok)?;
    let xmin = expect_number_token(tok)?;
    let xmax = expect_number_token(tok)?;
    let size = expect_integer_number_token(tok)?;
    if size < 0 {
        let mut details = message("Points do not support negative size: ");
        push_signed_decimal(&mut details, size);
        return Err(ParseError::Unsupported { details });
    }
    let points = parse_points(tok, size as u64)?;
    Ok(TextGridTier::TextTier(TextGridTextTier { name, xmin, xmax, points }))
}

fn parse_tier(tok: &mut Tokenizer) -> (r: Result<TextGridTier<String>, ParseError>)
    requires
        old(tok).wf(),
    ensures
        final(tok).wf(),
        final(tok).input() == old(tok).input(),
        outcome(r, final(tok).position(), p_tier(old(tok).input(), old(tok).position())),
{
    let class_name = expect_text_token(tok)?;
    match TextGridTierKind::from_str(class_name.as_str()) {
        Some(TextGridTierKind::IntervalTier) => parse_interval_tier(tok),
        Some(TextGridTierKind::TextTier) => parse_text_tier(tok),
        None => Err(ParseError::UnsupportedTierClass { name: class_name }),
    }
}

fn parse_tiers(tok: &mut Tokenizer, n: u64) -> (r: Result<Vec<TextGridTier<String>>, ParseError>)
    requires
        old(tok).wf(),
    ensures
        final(tok).wf(),
        final(tok).input() == old(tok).input(),
        match p_tiers(old(tok).input(), old(tok).position(), n as nat) {
            Ok((v, p)) => r matches Ok(x) && tiers_view(x@) == v && final(tok).position() == p,
            Err(e) => r matches Err(x) && x@ == e,
        },
{
    let mut items: Vec<TextGridTier<String>> = Vec::new();
    let mut i: u64 = 0;
    let ghost cs = tok.input();
    assert(tiers_view(items@) =~= Seq::<TierModel<Seq<char>>>::empty());
    while i < n
        invariant
            i <= n,
            tok.wf(),
            tok.input() == cs,
            cs == old(tok).input(),
            p_tiers(cs, old(tok).position(), n as nat) == prepend_all(
                tiers_view(items@),
                p_tiers(cs, tok.position(), (n - i) as nat),
            ),
        decreases n - i,
    {
        let item = parse_tier(tok)?;
        proof {
            lemma_prepend_step(tiers_view(items@), item@, p_tiers(cs, tok.position(), (n - i - 1) as nat));
        }
        let ghost prev = items@;
        let ghost item_view = item@;
        items.push(item);
        assert(tiers_view(items@) =~= tiers_view(prev).push(item_view));
        i = i + 1;
    }
    proof {
        let v = tiers_view(items@);
        assert(v + Seq::<TierModel<Seq<char>>>::empty() =~= v);
    }
    Ok(items)
}

fn parse_tier_list(tok: &mut Tokenizer) -> (r: Result<Vec<TextGridTier<String>>, ParseError>)
    requires
        old(tok).wf(),
    ensures
        match p_tier_list(old(tok).input(), old(tok).position()) {
            Ok(v) => r matches Ok(x) && tiers_view(x@) == v,
            Err(e) => r matches Err(x) && x@ == e,
        },
{
    let size = expect_integer_number_token(tok)?;
    if size < 0 {
        let mut details = message("Negative tier size is not supported: ");
        push_signed_decimal(&mut details, size);
        return Err(ParseError::Unsupported { details });
    }
    parse_tiers(tok, size as u64)
}

/// Reads a TextGrid from the text format. Succeeds exactly when `spec_parse`
/// gives a TextGrid, and then returns that TextGrid, each number kept as the
/// text of its token; otherwise returns the error that `spec_parse` gives.
pub fn parse(input: &str) -> (r: Result<TextGrid<String>, ParseError>)
    ensures
        match spec_parse(input@) {
            Ok(g) => r matches Ok(x) && x@ == g,
            Err(e) => r matches Err(x) && x@ == e,
        },
{
    let mut tok = Tokenizer::new(input);
    expect_constant_text_token(&mut tok, "ooTextFile")?;
    expect_constant_text_token(&mut tok, "TextGrid")?;
    let xmin = expect_number_token(&mut tok)?;
    let xmax = expect_number_token(&mut tok)?;
    match tok.peek() {
        Some(Ok(Token::Flag(TokenFlag::Exists))) => {
            tok.next();
        },
        Some(Ok(Token::Flag(TokenFlag::Absent))) | None => {
            let tiers: Vec<TextGridTier<String>> = Vec::new();
            assert(tiers_view(tiers@) =~= Seq::<TierModel<Seq<char>>>::empty());
            return Ok(TextGrid { xmin, xmax, tiers });
        },
        _ => {},
    }
    let tiers = parse_tier_list(&mut tok)?;
    Ok(TextGrid { xmin, xmax, tiers })
}

} // verus!
