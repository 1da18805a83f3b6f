//! Reading back what the stringifier writes: both text formats give back the
//! TextGrid they were written from.
use vstd::prelude::*;

use std::ops::Range;

use crate::model::{GridModel, IntervalModel, PointModel, TierModel};
use crate::text_format::escape::{quoted, unescape};
use crate::text_format::integers::{
    all_digits, digit_value, digits_value, might_be_octal, parse_i64,
};
use crate::text_format::parser::{
    p_constant, p_integer, p_interval, p_intervals, p_number, p_point, p_points, p_text, p_tier,
    p_tiers, spec_parse, ParseErrorModel,
};
use crate::text_format::stringifier::{
    long_interval, long_intervals, long_point, long_points, long_text, long_tier,
    long_tier_fields, long_tiers, short_interval, short_intervals, short_point, short_points,
    short_text, short_tier, short_tier_fields, short_tiers,
};
use crate::text_format::scan_lemmas::{
    all_plain, at, lemma_at_index, lemma_at_split, lemma_exists_token, lemma_number_token,
    lemma_plain_run, lemma_scan_skip, lemma_skip_concat, lemma_text_token,
    number_text, skip_from,
};
use crate::text_format::tokenizer::{
    is_digit, is_space, next_token, number_end, scan, ScanMode, Token, TokenFlag, TokenizeError,
};
use crate::textbuf::{decimal, digit_char};

verus! {

// ---------------------------------------------------------------------------
// Decimal numbers.

proof fn lemma_digit_char(d: int)
    requires
        0 <= d <= 9,
    ensures
        is_digit(digit_char(d)),
        digit_value(digit_char(d)) == d,
        digit_char(d) == '0' <==> d == 0,
{
}

proof fn lemma_number_end_digits(t: Seq<char>, a: int, dot: bool)
    requires
        0 <= a <= t.len(),
        all_digits(t),
    ensures
        number_end(t, a, dot) == t.len(),
    decreases t.len() - a,
{
    if a < t.len() {
        assert(is_digit(t[a]));
        lemma_number_end_digits(t, a + 1, dot);
    }
}

/// Facts about the decimal text of a natural number: digits without a
/// leading zero, whose value is the number.
pub proof fn lemma_decimal(n: nat)
    ensures
        decimal(n).len() >= 1,
        all_digits(decimal(n)),
        digits_value(decimal(n)) == n,
        decimal(n).len() > 1 ==> decimal(n)[0] != '0',
        n >= 10 ==> decimal(n).len() > 1,
    decreases n,
{
    if n < 10 {
        lemma_digit_char(n as int);
        assert(decimal(n).drop_last() =~= Seq::<char>::empty());
        assert(digits_value(Seq::<char>::empty()) == 0);
        assert(digits_value(decimal(n)) == n);
    } else {
        lemma_decimal(n / 10);
        lemma_digit_char((n % 10) as int);
        vstd::arithmetic::div_mod::lemma_fundamental_div_mod(n as int, 10);
        assert(n / 10 >= 1);
        let d = decimal(n);
        assert(d.last() == digit_char((n % 10) as int));
        assert(digits_value(d) == digits_value(d.drop_last()) * 10 + digit_value(d.last()));
        assert(d.drop_last() =~= decimal(n / 10));
        assert(d[0] == decimal(n / 10)[0]);
        assert forall|i: int| 0 <= i < d.len() implies is_digit(#[trigger] d[i]) by {
            if i < d.len() - 1 {
                assert(d[i] == decimal(n / 10)[i]);
            }
        }
        if n / 10 < 10 {
            lemma_digit_char((n / 10) as int);
            assert(decimal(n / 10)[0] == digit_char((n / 10) as int));
        }
        assert(digits_value(d) == n);
        assert(d[0] != '0');
    }
}

/// The decimal text of a number that fits in `i64` is read as that integer.
pub proof fn lemma_decimal_integer(n: nat)
    requires
        n <= i64::MAX,
    ensures
        number_text(decimal(n)),
        !might_be_octal(decimal(n)),
        parse_i64(decimal(n)) == Some(n as i64),
{
    lemma_decimal(n);
    let d = decimal(n);
    assert(is_digit(d[0]));
    lemma_number_end_digits(d, 1, false);
}

// ---------------------------------------------------------------------------
// Separators and values.

/// Reading a token from `p` finds what reading from `q` finds: the
/// characters between start no token.
pub open spec fn skips(cs: Seq<char>, p: int, q: int) -> bool {
    scan(cs, p, ScanMode::Between(true)) == scan(cs, q, ScanMode::Between(true))
}

/// A separator after which a token may start, read from where one may start.
pub open spec fn lead_ok(lead: Seq<char>) -> bool {
    skip_from(lead, 0, ScanMode::Between(true)) == Some(ScanMode::Between(true))
}

/// Whether character positions of the text fit in `usize`.
pub open spec fn fits(cs: Seq<char>) -> bool {
    cs.len() <= usize::MAX
}

/// Whether the character at `e` separates tokens.
pub open spec fn spaced(cs: Seq<char>, e: int) -> bool {
    0 <= e < cs.len() && is_space(cs[e])
}

proof fn lemma_skip_lead(cs: Seq<char>, q: int, lead: Seq<char>)
    requires
        at(cs, q, lead),
        lead_ok(lead),
    ensures
        skips(cs, q, q + lead.len()),
{
    lemma_scan_skip(cs, q, lead, 0, ScanMode::Between(true));
}

/// A number after a separator is read as its text.
proof fn lemma_read_number(cs: Seq<char>, p: int, q: int, lead: Seq<char>, t: Seq<char>)
    requires
        fits(cs),
        skips(cs, p, q),
        at(cs, q, lead),
        lead_ok(lead),
        at(cs, q + lead.len(), t),
        number_text(t),
        spaced(cs, q + lead.len() + t.len()),
    ensures
        p_number(cs, p) == Ok::<(Seq<char>, int), crate::text_format::parser::ParseErrorModel>(
            (t, q + lead.len() + t.len()),
        ),
{
    lemma_skip_lead(cs, q, lead);
    let v = q + lead.len();
    lemma_number_token(cs, v, t);
    assert(cs.subrange(v, v + t.len()) == t);
}

/// A natural number after a separator is read as that integer.
proof fn lemma_read_integer(cs: Seq<char>, p: int, q: int, lead: Seq<char>, n: nat)
    requires
        fits(cs),
        skips(cs, p, q),
        at(cs, q, lead),
        lead_ok(lead),
        at(cs, q + lead.len(), decimal(n)),
        n <= i64::MAX,
        spaced(cs, q + lead.len() + decimal(n).len()),
    ensures
        p_integer(cs, p) == Ok::<(i64, int), crate::text_format::parser::ParseErrorModel>(
            (n as i64, q + lead.len() + decimal(n).len()),
        ),
{
    lemma_decimal_integer(n);
    lemma_skip_lead(cs, q, lead);
    let v = q + lead.len();
    let t = decimal(n);
    lemma_number_token(cs, v, t);
    assert(cs.subrange(v, v + t.len()) == t);
}

/// A quoted text after a separator is read as the text.
proof fn lemma_read_text(cs: Seq<char>, p: int, q: int, lead: Seq<char>, t: Seq<char>)
    requires
        fits(cs),
        skips(cs, p, q),
        at(cs, q, lead),
        lead_ok(lead),
        at(cs, q + lead.len(), quoted(t)),
        spaced(cs, q + lead.len() + quoted(t).len()),
    ensures
        p_text(cs, p) == Ok::<(Seq<char>, int), crate::text_format::parser::ParseErrorModel>(
            (t, q + lead.len() + quoted(t).len()),
        ),
        p_constant(cs, p, t) == Ok::<((), int), crate::text_format::parser::ParseErrorModel>(
            ((), q + lead.len() + quoted(t).len()),
        ),
{
    lemma_skip_lead(cs, q, lead);
    let v = q + lead.len();
    lemma_text_token(cs, v, t);
}

/// The flag `<exists>` after a separator is read as that flag.
proof fn lemma_read_exists(cs: Seq<char>, p: int, q: int, lead: Seq<char>)
    requires
        skips(cs, p, q),
        at(cs, q, lead),
        lead_ok(lead),
        at(cs, q + lead.len(), "<exists>"@),
    ensures
        next_token(cs, p) == (
            Some(Ok::<Token, TokenizeError>(Token::Flag(TokenFlag::Exists))),
            q + lead.len() + 8,
        ),
{
    lemma_skip_lead(cs, q, lead);
    lemma_exists_token(cs, q + lead.len());
}

/// Plain characters ending in a space make a separator.
proof fn lemma_plain_lead(s: Seq<char>)
    requires
        all_plain(s),
        s.len() > 0,
        is_space(s.last()),
    ensures
        lead_ok(s),
{
    lemma_plain_run(s, 0, true);
}

proof fn lemma_label_run(d: Seq<char>, k: int)
    requires
        0 <= k <= d.len(),
        forall|j: int| 0 <= j < d.len() ==> d[j] != ']',
    ensures
        skip_from(d, k, ScanMode::Label) == Some(ScanMode::Label),
    decreases d.len() - k,
{
    if k < d.len() {
        lemma_label_run(d, k + 1);
    }
}

/// Plain characters, a label `[d]`, and plain characters ending in a space
/// make a separator.
proof fn lemma_bracket_lead(open: Seq<char>, d: Seq<char>, close: Seq<char>)
    requires
        open.len() >= 1,
        open.last() == '[',
        all_plain(open.drop_last()),
        forall|j: int| 0 <= j < d.len() ==> d[j] != ']',
        close.len() >= 2,
        close[0] == ']',
        all_plain(close.drop_first()),
        is_space(close.last()),
    ensures
        lead_ok(open + d + close),
{
    let head = open.drop_last();
    assert(open =~= head + seq!['[']);
    lemma_skip_concat(head, seq!['['], 0, ScanMode::Between(true));
    if head.len() > 0 {
        lemma_plain_run(head, 0, true);
    }
    assert(skip_from(seq!['['], 1, ScanMode::Label) == Some(ScanMode::Label));
    assert(skip_from(open, 0, ScanMode::Between(true)) == Some(ScanMode::Label));
    lemma_label_run(d, 0);
    lemma_skip_concat(open, d, 0, ScanMode::Between(true));
    let tail = close.drop_first();
    assert(close =~= seq![']'] + tail);
    lemma_skip_concat(seq![']'], tail, 0, ScanMode::Label);
    assert(skip_from(seq![']'], 1, ScanMode::Between(true)) == Some(ScanMode::Between(true)));
    lemma_plain_run(tail, 0, true);
    assert(tail.last() == close.last());
    lemma_skip_concat(open + d, close, 0, ScanMode::Between(true));
}

proof fn lemma_decimal_no_bracket(n: nat)
    ensures
        forall|j: int| 0 <= j < decimal(n).len() ==> decimal(n)[j] != ']',
{
    lemma_decimal(n);
    assert forall|j: int| 0 <= j < decimal(n).len() implies decimal(n)[j] != ']' by {
        assert(is_digit(decimal(n)[j]));
    }
}

/// The separator before the first value of an interval of the long format.
proof fn lemma_interval_lead(k: nat)
    ensures
        lead_ok("\n        intervals ["@ + decimal(k) + "]:\n            xmin = "@),
{
    reveal_strlit("\n        intervals [");
    reveal_strlit("]:\n            xmin = ");
    lemma_decimal_no_bracket(k);
    let o = "\n        intervals ["@;
    let c = "]:\n            xmin = "@;
    assert(all_plain(o.drop_last()));
    assert(all_plain(c.drop_first()));
    lemma_bracket_lead(o, decimal(k), c);
}

// ---------------------------------------------------------------------------
// The long format.

/// An interval of the long format is read back.
proof fn lemma_long_interval(cs: Seq<char>, p: int, q: int, iv: IntervalModel<Seq<char>>, k: nat)
    requires
        fits(cs),
        skips(cs, p, q),
        at(cs, q, long_interval(iv, k)),
        spaced(cs, q + long_interval(iv, k).len()),
        number_text(iv.xmin),
        number_text(iv.xmax),
    ensures
        p_interval(cs, p) == Ok::<
            (IntervalModel<Seq<char>>, int),
            crate::text_format::parser::ParseErrorModel,
        >((iv, q + long_interval(iv, k).len())),
{
    let l1 = "\n        intervals ["@ + decimal(k) + "]:\n            xmin = "@;
    let e2 = "\n            xmax = "@;
    let e3 = "\n            text = "@;
    let p3 = l1 + iv.xmin;
    let p4 = p3 + e2;
    let p5 = p4 + iv.xmax;
    let p6 = p5 + e3;
    assert(long_interval(iv, k) == p6 + quoted(iv.text));
    lemma_at_split(cs, q, p6, quoted(iv.text));
    lemma_at_split(cs, q, p5, e3);
    lemma_at_split(cs, q, p4, iv.xmax);
    lemma_at_split(cs, q, p3, e2);
    lemma_at_split(cs, q, l1, iv.xmin);
    lemma_interval_lead(k);
    reveal_strlit("\n            xmax = ");
    reveal_strlit("\n            text = ");
    lemma_plain_lead(e2);
    lemma_plain_lead(e3);
    lemma_at_index(cs, q + p3.len(), e2, 0);
    lemma_at_index(cs, q + p5.len(), e3, 0);
    lemma_read_number(cs, p, q, l1, iv.xmin);
    lemma_read_number(cs, q + p3.len(), q + p3.len(), e2, iv.xmax);
    lemma_read_text(cs, q + p5.len(), q + p5.len(), e3, iv.text);
}

/// The separator before the number of a point of the long format.
proof fn lemma_point_lead(k: nat)
    ensures
        lead_ok("\n        points ["@ + decimal(k) + "]:\n            number = "@),
{
    reveal_strlit("\n        points [");
    reveal_strlit("]:\n            number = ");
    lemma_decimal_no_bracket(k);
    let o = "\n        points ["@;
    let c = "]:\n            number = "@;
    assert(all_plain(o.drop_last()));
    assert(all_plain(c.drop_first()));
    lemma_bracket_lead(o, decimal(k), c);
}

/// A point of the long format is read back.
proof fn lemma_long_point(cs: Seq<char>, p: int, q: int, pt: PointModel<Seq<char>>, k: nat)
    requires
        fits(cs),
        skips(cs, p, q),
        at(cs, q, long_point(pt, k)),
        spaced(cs, q + long_point(pt, k).len()),
        number_text(pt.number),
    ensures
        p_point(cs, p) == Ok::<(PointModel<Seq<char>>, int), ParseErrorModel>(
            (pt, q + long_point(pt, k).len()),
        ),
{
    let l1 = "\n        points ["@ + decimal(k) + "]:\n            number = "@;
    let e2 = "\n            mark = "@;
    let p3 = l1 + pt.number;
    let p4 = p3 + e2;
    assert(long_point(pt, k) == p4 + quoted(pt.mark));
    lemma_at_split(cs, q, p4, quoted(pt.mark));
    lemma_at_split(cs, q, p3, e2);
    lemma_at_split(cs, q, l1, pt.number);
    lemma_point_lead(k);
    reveal_strlit("\n            mark = ");
    lemma_plain_lead(e2);
    lemma_at_index(cs, q + p3.len(), e2, 0);
    lemma_read_number(cs, p, q, l1, pt.number);
    lemma_read_text(cs, q + p3.len(), q + p3.len(), e2, pt.mark);
}

proof fn lemma_long_item_first(iv: IntervalModel<Seq<char>>, pt: PointModel<Seq<char>>, k: nat)
    ensures
        long_interval(iv, k).len() > 0,
        long_interval(iv, k)[0] == '\n',
        long_point(pt, k).len() > 0,
        long_point(pt, k)[0] == '\n',
{
    reveal_strlit("\n        intervals [");
    reveal_strlit("\n        points [");
}

/// Intervals of the long format are read back; reading ends where the
/// intervals end, or (with none) where it began.
proof fn lemma_long_intervals(
    cs: Seq<char>,
    p: int,
    q: int,
    s: Seq<IntervalModel<Seq<char>>>,
    k: nat,
)
    requires
        fits(cs),
        skips(cs, p, q),
        at(cs, q, long_intervals(s, k)),
        spaced(cs, q + long_intervals(s, k).len()),
        forall|i: int| 0 <= i < s.len() ==> number_text(#[trigger] s[i].xmin) && number_text(s[i].xmax),
    ensures
        p_intervals(cs, p, s.len()) matches Ok((v, r)) && v == s && skips(
            cs,
            r,
            q + long_intervals(s, k).len(),
        ),
    decreases s.len(),
{
    if s.len() > 0 {
        let first = long_interval(s[0], k + 1);
        let rest = long_intervals(s.drop_first(), k + 1);
        assert(long_intervals(s, k) == first + rest);
        lemma_at_split(cs, q, first, rest);
        if rest.len() > 0 {
            assert(s.drop_first().len() > 0);
            lemma_long_item_first(s.drop_first()[0], PointModel { number: seq![], mark: seq![] }, k + 2);
            assert(rest == long_interval(s.drop_first()[0], k + 2) + long_intervals(s.drop_first().drop_first(), k + 2));
            lemma_at_index(cs, q + first.len(), rest, 0);
        }
        assert(number_text(s[0].xmin) && number_text(s[0].xmax));
        lemma_long_interval(cs, p, q, s[0], k + 1);
        assert forall|i: int| 0 <= i < s.drop_first().len() implies number_text(
            #[trigger] s.drop_first()[i].xmin,
        ) && number_text(s.drop_first()[i].xmax) by {
            assert(s.drop_first()[i] == s[i + 1]);
            assert(0 <= i + 1 < s.len());
        }
        lemma_long_intervals(cs, q + first.len(), q + first.len(), s.drop_first(), k + 1);
        assert(seq![s[0]] + s.drop_first() =~= s);
    }
}

/// Points of the long format are read back; reading ends where the points
/// end, or (with none) where it began.
proof fn lemma_long_points(cs: Seq<char>, p: int, q: int, s: Seq<PointModel<Seq<char>>>, k: nat)
    requires
        fits(cs),
        skips(cs, p, q),
        at(cs, q, long_points(s, k)),
        spaced(cs, q + long_points(s, k).len()),
        forall|i: int| 0 <= i < s.len() ==> number_text(#[trigger] s[i].number),
    ensures
        p_points(cs, p, s.len()) matches Ok((v, r)) && v == s && skips(
            cs,
            r,
            q + long_points(s, k).len(),
        ),
    decreases s.len(),
{
    if s.len() > 0 {
        let first = long_point(s[0], k + 1);
        let rest = long_points(s.drop_first(), k + 1);
        assert(long_points(s, k) == first + rest);
        lemma_at_split(cs, q, first, rest);
        if rest.len() > 0 {
            assert(s.drop_first().len() > 0);
            lemma_long_item_first(IntervalModel { xmin: seq![], xmax: seq![], text: seq![] }, s.drop_first()[0], k + 2);
            assert(rest == long_point(s.drop_first()[0], k + 2) + long_points(s.drop_first().drop_first(), k + 2));
            lemma_at_index(cs, q + first.len(), rest, 0);
        }
        assert(number_text(s[0].number));
        lemma_long_point(cs, p, q, s[0], k + 1);
        assert forall|i: int| 0 <= i < s.drop_first().len() implies number_text(
            #[trigger] s.drop_first()[i].number,
        ) by {
            assert(s.drop_first()[i] == s[i + 1]);
            assert(0 <= i + 1 < s.len());
        }
        lemma_long_points(cs, q + first.len(), q + first.len(), s.drop_first(), k + 1);
        assert(seq![s[0]] + s.drop_first() =~= s);
    }
}

/// Whether the numbers of a tier are number texts and its item count fits in
/// `i64`.
pub open spec fn tier_writable(t: TierModel<Seq<char>>) -> bool {
    match t {
        TierModel::Interval { xmin, xmax, intervals, .. } => {
            &&& number_text(xmin)
            &&& number_text(xmax)
            &&& intervals.len() <= i64::MAX
            &&& forall|i: int|
                0 <= i < intervals.len() ==> number_text(#[trigger] intervals[i].xmin)
                    && number_text(intervals[i].xmax)
        },
        TierModel::Text { xmin, xmax, points, .. } => {
            &&& number_text(xmin)
            &&& number_text(xmax)
            &&& points.len() <= i64::MAX
            &&& forall|i: int| 0 <= i < points.len() ==> number_text(#[trigger] points[i].number)
        },
    }
}

/// The separator before the class of a tier of the long format.
proof fn lemma_tier_lead(k: nat)
    ensures
        lead_ok("\n    item ["@ + decimal(k) + "]:\n        class = "@),
        ("\n    item ["@ + decimal(k) + "]:\n        class = "@)[0] == '\n',
{
    reveal_strlit("\n    item [");
    reveal_strlit("]:\n        class = ");
    lemma_decimal_no_bracket(k);
    let o = "\n    item ["@;
    let c = "]:\n        class = "@;
    assert(all_plain(o.drop_last()));
    assert(all_plain(c.drop_first()));
    lemma_bracket_lead(o, decimal(k), c);
}

proof fn lemma_long_field_leads()
    ensures
        lead_ok("\n        name = "@),
        lead_ok("\n        xmin = "@),
        lead_ok("\n        xmax = "@),
        lead_ok("\n        intervals: size = "@),
        lead_ok("\n        points: size = "@),
        "\n        name = "@.len() > 0,
        "\n        xmin = "@.len() > 0,
        "\n        xmax = "@.len() > 0,
        "\n        intervals: size = "@.len() > 0,
        "\n        points: size = "@.len() > 0,
        "\n        name = "@[0] == '\n',
        "\n        xmin = "@[0] == '\n',
        "\n        xmax = "@[0] == '\n',
        "\n        intervals: size = "@[0] == '\n',
        "\n        points: size = "@[0] == '\n',
{
    reveal_strlit("\n        name = ");
    reveal_strlit("\n        xmin = ");
    reveal_strlit("\n        xmax = ");
    reveal_strlit("\n        intervals: size = ");
    reveal_strlit("\n        points: size = ");
    lemma_plain_lead("\n        name = "@);
    lemma_plain_lead("\n        xmin = "@);
    lemma_plain_lead("\n        xmax = "@);
    lemma_plain_lead("\n        intervals: size = "@);
    lemma_plain_lead("\n        points: size = "@);
}

#[verifier::rlimit(60)]
proof fn lemma_long_interval_tier(
    cs: Seq<char>,
    p: int,
    q: int,
    t: TierModel<Seq<char>>,
    k: nat,
    name: Seq<char>,
    xmin: Seq<char>,
    xmax: Seq<char>,
    intervals: Seq<IntervalModel<Seq<char>>>,
)
    requires
        t == (TierModel::Interval { name, xmin, xmax, intervals }),
        fits(cs),
        skips(cs, p, q),
        at(cs, q, long_tier(t, k)),
        spaced(cs, q + long_tier(t, k).len()),
        tier_writable(t),
    ensures
        p_tier(cs, p) matches Ok((v, r)) && v == t && skips(cs, r, q + long_tier(t, k).len()),
{
    reveal(long_tier);
    let l0 = "\n    item ["@ + decimal(k) + "]:\n        class = "@;
    lemma_tier_lead(k);
    lemma_long_field_leads();
    let n1 = "\n        name = "@;
    let x1 = "\n        xmin = "@;
    let x2 = "\n        xmax = "@;
    let kind = crate::model::TextGridTierKind::IntervalTier;
    let qc = quoted(crate::model::kind_name(kind));
    let f = long_tier_fields(name, xmin, xmax);
    let sz = "\n        intervals: size = "@;
    let d = decimal(intervals.len());
    let li = long_intervals(intervals, 0);
    let m = qc + f + sz + d + li;
    assert(long_tier(t, k) == l0 + m);
    lemma_at_split(cs, q, l0, m);
    let q1 = q + l0.len();
    lemma_at_split(cs, q1, qc + f + sz + d, li);
    lemma_at_split(cs, q1, qc + f + sz, d);
    lemma_at_split(cs, q1, qc + f, sz);
    lemma_at_split(cs, q1, qc, f);
    let p2 = n1 + quoted(name);
    let p3 = p2 + x1;
    let p4 = p3 + xmin;
    let p5 = p4 + x2;
    assert(f == p5 + xmax);
    let e1 = q1 + qc.len();
    lemma_at_split(cs, e1, p5, xmax);
    lemma_at_split(cs, e1, p4, x2);
    lemma_at_split(cs, e1, p3, xmin);
    lemma_at_split(cs, e1, p2, x1);
    lemma_at_split(cs, e1, n1, quoted(name));
    lemma_at_index(cs, e1, n1, 0);
    lemma_read_text(cs, p, q, l0, crate::model::kind_name(kind));
    crate::model::lemma_kind_name_round_trip(kind);
    lemma_at_index(cs, e1 + p2.len(), x1, 0);
    lemma_read_text(cs, e1, e1, n1, name);
    lemma_at_index(cs, e1 + p4.len(), x2, 0);
    lemma_read_number(cs, e1 + p2.len(), e1 + p2.len(), x1, xmin);
    let e4 = e1 + f.len();
    lemma_at_index(cs, e4, sz, 0);
    lemma_read_number(cs, e1 + p4.len(), e1 + p4.len(), x2, xmax);
    let e5 = e4 + sz.len() + d.len();
    if li.len() > 0 {
        lemma_long_item_first(intervals[0], PointModel { number: seq![], mark: seq![] }, 1);
        assert(li == long_interval(intervals[0], 1) + long_intervals(intervals.drop_first(), 1));
        lemma_at_index(cs, e5, li, 0);
    }
    lemma_read_integer(cs, e4, e4, sz, intervals.len());
    assert forall|i: int| 0 <= i < intervals.len() implies number_text(
        #[trigger] intervals[i].xmin,
    ) && number_text(intervals[i].xmax) by {
        assert(tier_writable(t));
    }
    lemma_long_intervals(cs, e5, e5, intervals, 0);
}

#[verifier::rlimit(60)]
proof fn lemma_long_text_tier(
    cs: Seq<char>,
    p: int,
    q: int,
    t: TierModel<Seq<char>>,
    k: nat,
    name: Seq<char>,
    xmin: Seq<char>,
    xmax: Seq<char>,
    points: Seq<PointModel<Seq<char>>>,
)
    requires
        t == (TierModel::Text { name, xmin, xmax, points }),
        fits(cs),
        skips(cs, p, q),
        at(cs, q, long_tier(t, k)),
        spaced(cs, q + long_tier(t, k).len()),
        tier_writable(t),
    ensures
        p_tier(cs, p) matches Ok((v, r)) && v == t && skips(cs, r, q + long_tier(t, k).len()),
{
    reveal(long_tier);
    let l0 = "\n    item ["@ + decimal(k) + "]:\n        class = "@;
    lemma_tier_lead(k);
    lemma_long_field_leads();
    let n1 = "\n        name = "@;
    let x1 = "\n        xmin = "@;
    let x2 = "\n        xmax = "@;
    let kind = crate::model::TextGridTierKind::TextTier;
    let qc = quoted(crate::model::kind_name(kind));
    let f = long_tier_fields(name, xmin, xmax);
    let sz = "\n        points: size = "@;
    let d = decimal(points.len());
    let lp = long_points(points, 0);
    let m = qc + f + sz + d + lp;
    assert(long_tier(t, k) == l0 + m);
    lemma_at_split(cs, q, l0, m);
    let q1 = q + l0.len();
    lemma_at_split(cs, q1, qc + f + sz + d, lp);
    lemma_at_split(cs, q1, qc + f + sz, d);
    lemma_at_split(cs, q1, qc + f, sz);
    lemma_at_split(cs, q1, qc, f);
    let p2 = n1 + quoted(name);
    let p3 = p2 + x1;
    let p4 = p3 + xmin;
    let p5 = p4 + x2;
    assert(f == p5 + xmax);
    let e1 = q1 + qc.len();
    lemma_at_split(cs, e1, p5, xmax);
    lemma_at_split(cs, e1, p4, x2);
    lemma_at_split(cs, e1, p3, xmin);
    lemma_at_split(cs, e1, p2, x1);
    lemma_at_split(cs, e1, n1, quoted(name));
    lemma_at_index(cs, e1, n1, 0);
    lemma_read_text(cs, p, q, l0, crate::model::kind_name(kind));
    crate::model::lemma_kind_name_round_trip(kind);
    lemma_at_index(cs, e1 + p2.len(), x1, 0);
    lemma_read_text(cs, e1, e1, n1, name);
    lemma_at_index(cs, e1 + p4.len(), x2, 0);
    lemma_read_number(cs, e1 + p2.len(), e1 + p2.len(), x1, xmin);
    let e4 = e1 + f.len();
    lemma_at_index(cs, e4, sz, 0);
    lemma_read_number(cs, e1 + p4.len(), e1 + p4.len(), x2, xmax);
    let e5 = e4 + sz.len() + d.len();
    if lp.len() > 0 {
        lemma_long_item_first(IntervalModel { xmin: seq![], xmax: seq![], text: seq![] }, points[0], 1);
        assert(lp == long_point(points[0], 1) + long_points(points.drop_first(), 1));
        lemma_at_index(cs, e5, lp, 0);
    }
    lemma_read_integer(cs, e4, e4, sz, points.len());
    assert forall|i: int| 0 <= i < points.len() implies number_text(#[trigger] points[i].number) by {
        assert(tier_writable(t));
    }
    lemma_long_points(cs, e5, e5, points, 0);
}

/// A tier of the long format is read back; reading ends where the tier ends,
/// or before the separators that follow its last value.
proof fn lemma_long_tier(cs: Seq<char>, p: int, q: int, t: TierModel<Seq<char>>, k: nat)
    requires
        fits(cs),
        skips(cs, p, q),
        at(cs, q, long_tier(t, k)),
        spaced(cs, q + long_tier(t, k).len()),
        tier_writable(t),
    ensures
        p_tier(cs, p) matches Ok((v, r)) && v == t && skips(cs, r, q + long_tier(t, k).len()),
{
    match t {
        TierModel::Interval { name, xmin, xmax, intervals } => {
            lemma_long_interval_tier(cs, p, q, t, k, name, xmin, xmax, intervals);
        },
        TierModel::Text { name, xmin, xmax, points } => {
            lemma_long_text_tier(cs, p, q, t, k, name, xmin, xmax, points);
        },
    }
}

/// Tiers of the long format are read back; reading ends where the tiers
/// end, or before the separators that follow their last value.
proof fn lemma_long_tiers(cs: Seq<char>, p: int, q: int, s: Seq<TierModel<Seq<char>>>, k: nat)
    requires
        fits(cs),
        skips(cs, p, q),
        at(cs, q, long_tiers(s, k)),
        spaced(cs, q + long_tiers(s, k).len()),
        forall|i: int| 0 <= i < s.len() ==> tier_writable(#[trigger] s[i]),
    ensures
        p_tiers(cs, p, s.len()) matches Ok((v, r)) && v == s && skips(
            cs,
            r,
            q + long_tiers(s, k).len(),
        ),
    decreases s.len(),
{
    if s.len() > 0 {
        let first = long_tier(s[0], k + 1);
        let rest = long_tiers(s.drop_first(), k + 1);
        assert(long_tiers(s, k) == first + rest);
        lemma_at_split(cs, q, first, rest);
        if rest.len() > 0 {
            assert(s.drop_first().len() > 0);
            lemma_long_tier_first(s.drop_first()[0], k + 2);
            assert(rest == long_tier(s.drop_first()[0], k + 2) + long_tiers(s.drop_first().drop_first(), k + 2));
            lemma_at_index(cs, q + first.len(), rest, 0);
        }
        assert(tier_writable(s[0]));
        lemma_long_tier(cs, p, q, s[0], k + 1);
        let r1 = p_tier(cs, p)->Ok_0.1;
        assert forall|i: int| 0 <= i < s.drop_first().len() implies tier_writable(
            #[trigger] s.drop_first()[i],
        ) by {
            assert(s.drop_first()[i] == s[i + 1]);
            assert(0 <= i + 1 < s.len());
        }
        lemma_long_tiers(cs, r1, q + first.len(), s.drop_first(), k + 1);
        assert(seq![s[0]] + s.drop_first() =~= s);
    }
}

proof fn lemma_long_tier_first(t: TierModel<Seq<char>>, k: nat)
    ensures
        long_tier(t, k).len() > 0,
        long_tier(t, k)[0] == '\n',
{
    reveal(long_tier);
    reveal_strlit("\n    item [");
}

/// At a character that separates tokens, reading goes on the same way
/// whether or not a token could have started just before it.
proof fn lemma_space_mode(cs: Seq<char>, x: int, b: bool)
    requires
        spaced(cs, x),
    ensures
        scan(cs, x, ScanMode::Between(b)) == scan(cs, x, ScanMode::Between(true)),
{
}

/// The line `item []:` before the tiers of the long format: after it, a
/// tier's separator that starts with a space or line feed reads as usual.
proof fn lemma_item_list_line(cs: Seq<char>, e: int)
    requires
        at(cs, e, "\nitem []:"@),
        spaced(cs, e + 9),
    ensures
        skips(cs, e, e + 9),
{
    reveal_strlit("\nitem []:");
    reveal_strlit("\nitem ");
    let w = "\nitem []:"@;
    let h = "\nitem "@;
    let t = seq!['[', ']', ':'];
    assert(w =~= h + t);
    lemma_plain_run(h, 0, true);
    lemma_skip_concat(h, t, 0, ScanMode::Between(true));
    assert(skip_from(t, 3, ScanMode::Between(false)) == Some(ScanMode::Between(false)));
    assert(skip_from(t, 2, ScanMode::Between(true)) == Some(ScanMode::Between(false)));
    assert(skip_from(t, 1, ScanMode::Label) == Some(ScanMode::Between(false)));
    assert(skip_from(t, 0, ScanMode::Between(true)) == Some(ScanMode::Between(false)));
    lemma_scan_skip(cs, e, w, 0, ScanMode::Between(true));
    lemma_space_mode(cs, e + 9, false);
}

/// Whether a TextGrid can be written in the text formats and read back:
/// every number is the text of one number token, and every count fits in
/// `i64`.
pub open spec fn text_writable(g: GridModel<Seq<char>>) -> bool {
    &&& number_text(g.xmin)
    &&& number_text(g.xmax)
    &&& g.tiers.len() <= i64::MAX
    &&& forall|i: int| 0 <= i < g.tiers.len() ==> tier_writable(#[trigger] g.tiers[i])
}

proof fn lemma_top_leads()
    ensures
        lead_ok("File type = "@),
        lead_ok("\nObject class = "@),
        lead_ok("\n\nxmin = "@),
        lead_ok("\nxmax = "@),
        lead_ok("\ntiers? "@),
        lead_ok("\nsize = "@),
        "\nObject class = "@.len() > 0 && "\nObject class = "@[0] == '\n',
        "\n\nxmin = "@.len() > 0 && "\n\nxmin = "@[0] == '\n',
        "\nxmax = "@.len() > 0 && "\nxmax = "@[0] == '\n',
        "\ntiers? "@.len() > 0 && "\ntiers? "@[0] == '\n',
        "\nsize = "@.len() > 0 && "\nsize = "@[0] == '\n',
        "\nitem []:"@.len() == 9 && "\nitem []:"@[0] == '\n',
        "\n"@.len() == 1 && "\n"@[0] == '\n',
        "<exists>"@.len() == 8,
{
    reveal_strlit("File type = ");
    reveal_strlit("\nObject class = ");
    reveal_strlit("\n\nxmin = ");
    reveal_strlit("\nxmax = ");
    reveal_strlit("\ntiers? ");
    reveal_strlit("\nsize = ");
    reveal_strlit("\nitem []:");
    reveal_strlit("\n");
    reveal_strlit("<exists>");
    lemma_plain_lead("File type = "@);
    lemma_plain_lead("\nObject class = "@);
    lemma_plain_lead("\n\nxmin = "@);
    lemma_plain_lead("\nxmax = "@);
    lemma_plain_lead("\ntiers? "@);
    lemma_plain_lead("\nsize = "@);
}

/// Where each piece of a text made of fifteen pieces stands.
proof fn lemma_long_layout(
    cs: Seq<char>,
    a: Seq<char>,
    b: Seq<char>,
    c: Seq<char>,
    d: Seq<char>,
    e: Seq<char>,
    x: Seq<char>,
    f: Seq<char>,
    y: Seq<char>,
    gg: Seq<char>,
    h: Seq<char>,
    i: Seq<char>,
    nn: Seq<char>,
    j: Seq<char>,
    t: Seq<char>,
    kk: Seq<char>,
)
    requires
        cs == a + b + c + d + e + x + f + y + gg + h + i + nn + j + t + kk,
    ensures
        at(cs, 0, a),
        at(cs, (a + b).len() - b.len(), b),
        at(cs, (a + b).len() as int, c),
        at(cs, (a + b + c).len() as int, d),
        at(cs, (a + b + c + d).len() as int, e),
        at(cs, (a + b + c + d + e).len() as int, x),
        at(cs, (a + b + c + d + e + x).len() as int, f),
        at(cs, (a + b + c + d + e + x + f).len() as int, y),
        at(cs, (a + b + c + d + e + x + f + y).len() as int, gg),
        at(cs, (a + b + c + d + e + x + f + y + gg).len() as int, h),
        at(cs, (a + b + c + d + e + x + f + y + gg + h).len() as int, i),
        at(cs, (a + b + c + d + e + x + f + y + gg + h + i).len() as int, nn),
        at(cs, (a + b + c + d + e + x + f + y + gg + h + i + nn).len() as int, j),
        at(cs, (a + b + c + d + e + x + f + y + gg + h + i + nn + j).len() as int, t),
        at(cs, (a + b + c + d + e + x + f + y + gg + h + i + nn + j + t).len() as int, kk),
{
    let p1 = a + b;
    let p2 = p1 + c;
    let p3 = p2 + d;
    let p4 = p3 + e;
    let p5 = p4 + x;
    let p6 = p5 + f;
    let p7 = p6 + y;
    let p8 = p7 + gg;
    let p9 = p8 + h;
    let p10 = p9 + i;
    let p11 = p10 + nn;
    let p12 = p11 + j;
    let p13 = p12 + t;
    assert(at(cs, 0, cs)) by {
        assert(cs.subrange(0, cs.len() as int) =~= cs);
    }
    lemma_at_split(cs, 0, p13, kk);
    lemma_at_split(cs, 0, p12, t);
    lemma_at_split(cs, 0, p11, j);
    lemma_at_split(cs, 0, p10, nn);
    lemma_at_split(cs, 0, p9, i);
    lemma_at_split(cs, 0, p8, h);
    lemma_at_split(cs, 0, p7, gg);
    lemma_at_split(cs, 0, p6, y);
    lemma_at_split(cs, 0, p5, f);
    lemma_at_split(cs, 0, p4, x);
    lemma_at_split(cs, 0, p3, e);
    lemma_at_split(cs, 0, p2, d);
    lemma_at_split(cs, 0, p1, c);
    lemma_at_split(cs, 0, a, b);
}

/// Where the pieces of the long format start.
pub struct LongOffsets {
    pub o0: int,
    pub o1: int,
    pub o2: int,
    pub o3: int,
    pub o4: int,
    pub o5: int,
    pub o6: int,
    pub o7: int,
    pub o8: int,
    pub o9: int,
    pub o10: int,
    pub o11: int,
    pub o12: int,
    pub o13: int,
    pub o14: int,
}

/// Reading a text whose pieces stand where the long format puts them.
#[verifier::rlimit(60)]
proof fn lemma_long_reads(cs: Seq<char>, g: GridModel<Seq<char>>, o: LongOffsets)
    requires
        text_writable(g),
        fits(cs),
        o.o0 == 0,
        at(cs, o.o0, "File type = "@),
        o.o1 == o.o0 + "File type = "@.len(),
        at(cs, o.o1, quoted("ooTextFile"@)),
        o.o2 == o.o1 + quoted("ooTextFile"@).len(),
        at(cs, o.o2, "\nObject class = "@),
        o.o3 == o.o2 + "\nObject class = "@.len(),
        at(cs, o.o3, quoted("TextGrid"@)),
        o.o4 == o.o3 + quoted("TextGrid"@).len(),
        at(cs, o.o4, "\n\nxmin = "@),
        o.o5 == o.o4 + "\n\nxmin = "@.len(),
        at(cs, o.o5, g.xmin),
        o.o6 == o.o5 + g.xmin.len(),
        at(cs, o.o6, "\nxmax = "@),
        o.o7 == o.o6 + "\nxmax = "@.len(),
        at(cs, o.o7, g.xmax),
        o.o8 == o.o7 + g.xmax.len(),
        at(cs, o.o8, "\ntiers? "@),
        o.o9 == o.o8 + "\ntiers? "@.len(),
        at(cs, o.o9, "<exists>"@),
        o.o10 == o.o9 + "<exists>"@.len(),
        at(cs, o.o10, "\nsize = "@),
        o.o11 == o.o10 + "\nsize = "@.len(),
        at(cs, o.o11, decimal(g.tiers.len())),
        o.o12 == o.o11 + decimal(g.tiers.len()).len(),
        at(cs, o.o12, "\nitem []:"@),
        o.o13 == o.o12 + "\nitem []:"@.len(),
        at(cs, o.o13, long_tiers(g.tiers, 0)),
        o.o14 == o.o13 + long_tiers(g.tiers, 0).len(),
        at(cs, o.o14, "\n"@),
    ensures
        spec_parse(cs) == Ok::<GridModel<Seq<char>>, ParseErrorModel>(g),
{
    lemma_top_leads();
    lemma_at_index(cs, o.o2, "\nObject class = "@, 0);
    lemma_read_text(cs, 0, 0, "File type = "@, "ooTextFile"@);
    lemma_at_index(cs, o.o4, "\n\nxmin = "@, 0);
    lemma_read_text(cs, o.o2, o.o2, "\nObject class = "@, "TextGrid"@);
    lemma_at_index(cs, o.o6, "\nxmax = "@, 0);
    lemma_read_number(cs, o.o4, o.o4, "\n\nxmin = "@, g.xmin);
    lemma_at_index(cs, o.o8, "\ntiers? "@, 0);
    lemma_read_number(cs, o.o6, o.o6, "\nxmax = "@, g.xmax);
    lemma_read_exists(cs, o.o8, o.o8, "\ntiers? "@);
    lemma_at_index(cs, o.o12, "\nitem []:"@, 0);
    lemma_read_integer(cs, o.o10, o.o10, "\nsize = "@, g.tiers.len());
    lemma_at_index(cs, o.o14, "\n"@, 0);
    if g.tiers.len() > 0 {
        let t = long_tiers(g.tiers, 0);
        lemma_long_tier_first(g.tiers[0], 1);
        assert(t == long_tier(g.tiers[0], 1) + long_tiers(g.tiers.drop_first(), 1));
        lemma_at_index(cs, o.o13, t, 0);
        lemma_item_list_line(cs, o.o12);
        lemma_long_tiers(cs, o.o12, o.o13, g.tiers, 0);
    } else {
        assert(g.tiers =~= Seq::<TierModel<Seq<char>>>::empty());
    }
    assert(p_constant(cs, 0, "ooTextFile"@) == Ok::<((), int), ParseErrorModel>(((), o.o2)));
    assert(p_constant(cs, o.o2, "TextGrid"@) == Ok::<((), int), ParseErrorModel>(((), o.o4)));
    assert(p_number(cs, o.o4) == Ok::<(Seq<char>, int), ParseErrorModel>((g.xmin, o.o6)));
    assert(p_number(cs, o.o6) == Ok::<(Seq<char>, int), ParseErrorModel>((g.xmax, o.o8)));
    assert(p_integer(cs, o.o10) == Ok::<(i64, int), ParseErrorModel>((g.tiers.len() as i64, o.o12)));
    assert(crate::text_format::parser::p_tier_list(cs, o.o10) == Ok::<Seq<TierModel<Seq<char>>>, ParseErrorModel>(g.tiers));
}

/// The long text format of a TextGrid reads back as that TextGrid.
#[verifier::rlimit(60)]
pub proof fn lemma_long_round_trip(g: GridModel<Seq<char>>)
    requires
        text_writable(g),
        long_text(g).len() <= usize::MAX,
    ensures
        spec_parse(long_text(g)) == Ok::<GridModel<Seq<char>>, ParseErrorModel>(g),
{
    let cs = long_text(g);
    let a = "File type = "@;
    let b = quoted("ooTextFile"@);
    let c = "\nObject class = "@;
    let d = quoted("TextGrid"@);
    let e = "\n\nxmin = "@;
    let f = "\nxmax = "@;
    let gg = "\ntiers? "@;
    let h = "<exists>"@;
    let i = "\nsize = "@;
    let nn = decimal(g.tiers.len());
    let j = "\nitem []:"@;
    let t = long_tiers(g.tiers, 0);
    let kk = "\n"@;
    let x = g.xmin;
    let y = g.xmax;
    assert(cs == a + b + c + d + e + x + f + y + gg + h + i + nn + j + t + kk) by {
        reveal(long_text);
    }
    lemma_long_layout(cs, a, b, c, d, e, x, f, y, gg, h, i, nn, j, t, kk);
    let o = LongOffsets {
        o0: 0,
        o1: a.len() as int,
        o2: (a + b).len() as int,
        o3: (a + b + c).len() as int,
        o4: (a + b + c + d).len() as int,
        o5: (a + b + c + d + e).len() as int,
        o6: (a + b + c + d + e + x).len() as int,
        o7: (a + b + c + d + e + x + f).len() as int,
        o8: (a + b + c + d + e + x + f + y).len() as int,
        o9: (a + b + c + d + e + x + f + y + gg).len() as int,
        o10: (a + b + c + d + e + x + f + y + gg + h).len() as int,
        o11: (a + b + c + d + e + x + f + y + gg + h + i).len() as int,
        o12: (a + b + c + d + e + x + f + y + gg + h + i + nn).len() as int,
        o13: (a + b + c + d + e + x + f + y + gg + h + i + nn + j).len() as int,
        o14: (a + b + c + d + e + x + f + y + gg + h + i + nn + j + t).len() as int,
    };
    lemma_long_reads(cs, g, o);
}

// ---------------------------------------------------------------------------
// The short format.

proof fn lemma_short_leads()
    ensures
        lead_ok("\n"@),
        lead_ok(" "@),
        lead_ok(Seq::<char>::empty()),
        "\n"@.len() == 1 && "\n"@[0] == '\n',
        " "@.len() == 1 && " "@[0] == ' ',
        "<exists>"@.len() == 8,
{
    reveal_strlit("\n");
    reveal_strlit(" ");
    reveal_strlit("<exists>");
    lemma_plain_lead("\n"@);
    lemma_plain_lead(" "@);
}

/// An interval of the short format is read back.
proof fn lemma_short_interval(cs: Seq<char>, p: int, q: int, iv: IntervalModel<Seq<char>>)
    requires
        fits(cs),
        skips(cs, p, q),
        at(cs, q, short_interval(iv)),
        spaced(cs, q + short_interval(iv).len()),
        number_text(iv.xmin),
        number_text(iv.xmax),
    ensures
        p_interval(cs, p) == Ok::<(IntervalModel<Seq<char>>, int), ParseErrorModel>(
            (iv, q + short_interval(iv).len()),
        ),
{
    lemma_short_leads();
    let nl = "\n"@;
    let sp = " "@;
    let p2 = nl + iv.xmin;
    let p3 = p2 + sp;
    let p4 = p3 + iv.xmax;
    let p5 = p4 + sp;
    assert(short_interval(iv) == p5 + quoted(iv.text));
    lemma_at_split(cs, q, p5, quoted(iv.text));
    lemma_at_split(cs, q, p4, sp);
    lemma_at_split(cs, q, p3, iv.xmax);
    lemma_at_split(cs, q, p2, sp);
    lemma_at_split(cs, q, nl, iv.xmin);
    lemma_at_index(cs, q + p2.len(), sp, 0);
    lemma_at_index(cs, q + p4.len(), sp, 0);
    lemma_read_number(cs, p, q, nl, iv.xmin);
    lemma_read_number(cs, q + p2.len(), q + p2.len(), sp, iv.xmax);
    lemma_read_text(cs, q + p4.len(), q + p4.len(), sp, iv.text);
}

/// A point of the short format is read back.
proof fn lemma_short_point(cs: Seq<char>, p: int, q: int, pt: PointModel<Seq<char>>)
    requires
        fits(cs),
        skips(cs, p, q),
        at(cs, q, short_point(pt)),
        spaced(cs, q + short_point(pt).len()),
        number_text(pt.number),
    ensures
        p_point(cs, p) == Ok::<(PointModel<Seq<char>>, int), ParseErrorModel>(
            (pt, q + short_point(pt).len()),
        ),
{
    lemma_short_leads();
    let nl = "\n"@;
    let sp = " "@;
    let p2 = nl + pt.number;
    let p3 = p2 + sp;
    assert(short_point(pt) == p3 + quoted(pt.mark));
    lemma_at_split(cs, q, p3, quoted(pt.mark));
    lemma_at_split(cs, q, p2, sp);
    lemma_at_split(cs, q, nl, pt.number);
    lemma_at_index(cs, q + p2.len(), sp, 0);
    lemma_read_number(cs, p, q, nl, pt.number);
    lemma_read_text(cs, q + p2.len(), q + p2.len(), sp, pt.mark);
}

proof fn lemma_short_item_first(iv: IntervalModel<Seq<char>>, pt: PointModel<Seq<char>>, t: TierModel<Seq<char>>)
    ensures
        short_interval(iv).len() > 0,
        short_interval(iv)[0] == '\n',
        short_point(pt).len() > 0,
        short_point(pt)[0] == '\n',
        short_tier(t).len() > 0,
        short_tier(t)[0] == '\n',
{
    reveal(short_tier);
    reveal_strlit("\n");
}

/// Intervals of the short format are read back.
proof fn lemma_short_intervals(cs: Seq<char>, p: int, q: int, s: Seq<IntervalModel<Seq<char>>>)
    requires
        fits(cs),
        skips(cs, p, q),
        at(cs, q, short_intervals(s)),
        spaced(cs, q + short_intervals(s).len()),
        forall|i: int| 0 <= i < s.len() ==> number_text(#[trigger] s[i].xmin) && number_text(s[i].xmax),
    ensures
        p_intervals(cs, p, s.len()) matches Ok((v, r)) && v == s && skips(
            cs,
            r,
            q + short_intervals(s).len(),
        ),
    decreases s.len(),
{
    if s.len() > 0 {
        let first = short_interval(s[0]);
        let rest = short_intervals(s.drop_first());
        assert(short_intervals(s) == first + rest);
        lemma_at_split(cs, q, first, rest);
        if rest.len() > 0 {
            lemma_short_item_first(s.drop_first()[0], PointModel { number: seq![], mark: seq![] }, TierModel::Text { name: seq![], xmin: seq![], xmax: seq![], points: seq![] });
            assert(rest == short_interval(s.drop_first()[0]) + short_intervals(s.drop_first().drop_first()));
            lemma_at_index(cs, q + first.len(), rest, 0);
        }
        assert(number_text(s[0].xmin) && number_text(s[0].xmax));
        lemma_short_interval(cs, p, q, s[0]);
        assert forall|i: int| 0 <= i < s.drop_first().len() implies number_text(
            #[trigger] s.drop_first()[i].xmin,
        ) && number_text(s.drop_first()[i].xmax) by {
            assert(s.drop_first()[i] == s[i + 1]);
            assert(0 <= i + 1 < s.len());
        }
        lemma_short_intervals(cs, q + first.len(), q + first.len(), s.drop_first());
        assert(seq![s[0]] + s.drop_first() =~= s);
    }
}

/// Points of the short format are read back.
proof fn lemma_short_points(cs: Seq<char>, p: int, q: int, s: Seq<PointModel<Seq<char>>>)
    requires
        fits(cs),
        skips(cs, p, q),
        at(cs, q, short_points(s)),
        spaced(cs, q + short_points(s).len()),
        forall|i: int| 0 <= i < s.len() ==> number_text(#[trigger] s[i].number),
    ensures
        p_points(cs, p, s.len()) matches Ok((v, r)) && v == s && skips(
            cs,
            r,
            q + short_points(s).len(),
        ),
    decreases s.len(),
{
    if s.len() > 0 {
        let first = short_point(s[0]);
        let rest = short_points(s.drop_first());
        assert(short_points(s) == first + rest);
        lemma_at_split(cs, q, first, rest);
        if rest.len() > 0 {
            lemma_short_item_first(IntervalModel { xmin: seq![], xmax: seq![], text: seq![] }, s.drop_first()[0], TierModel::Text { name: seq![], xmin: seq![], xmax: seq![], points: seq![] });
            assert(rest == short_point(s.drop_first()[0]) + short_points(s.drop_first().drop_first()));
            lemma_at_index(cs, q + first.len(), rest, 0);
        }
        assert(number_text(s[0].number));
        lemma_short_point(cs, p, q, s[0]);
        assert forall|i: int| 0 <= i < s.drop_first().len() implies number_text(
            #[trigger] s.drop_first()[i].number,
        ) by {
            assert(s.drop_first()[i] == s[i + 1]);
            assert(0 <= i + 1 < s.len());
        }
        lemma_short_points(cs, q + first.len(), q + first.len(), s.drop_first());
        assert(seq![s[0]] + s.drop_first() =~= s);
    }
}

#[verifier::rlimit(60)]
proof fn lemma_short_interval_tier(
    cs: Seq<char>,
    p: int,
    q: int,
    t: TierModel<Seq<char>>,
    name: Seq<char>,
    xmin: Seq<char>,
    xmax: Seq<char>,
    intervals: Seq<IntervalModel<Seq<char>>>,
)
    requires
        t == (TierModel::Interval { name, xmin, xmax, intervals }),
        fits(cs),
        skips(cs, p, q),
        at(cs, q, short_tier(t)),
        spaced(cs, q + short_tier(t).len()),
        tier_writable(t),
    ensures
        p_tier(cs, p) matches Ok((v, r)) && v == t && skips(cs, r, q + short_tier(t).len()),
{
    reveal(short_tier);
    lemma_short_leads();
    let nl = "\n"@;
    let sp = " "@;
    let kind = crate::model::TextGridTierKind::IntervalTier;
    let qc = quoted(crate::model::kind_name(kind));
    let f = short_tier_fields(name, xmin, xmax);
    let d = decimal(intervals.len());
    let li = short_intervals(intervals);
    let m = qc + f + sp + d + li;
    assert(short_tier(t) == nl + m);
    lemma_at_split(cs, q, nl, m);
    let q1 = q + 1;
    lemma_at_split(cs, q1, qc + f + sp + d, li);
    lemma_at_split(cs, q1, qc + f + sp, d);
    lemma_at_split(cs, q1, qc + f, sp);
    lemma_at_split(cs, q1, qc, f);
    let p2 = sp + quoted(name);
    let p3 = p2 + sp;
    let p4 = p3 + xmin;
    let p5 = p4 + sp;
    assert(f == p5 + xmax);
    let e1 = q1 + qc.len();
    lemma_at_split(cs, e1, p5, xmax);
    lemma_at_split(cs, e1, p4, sp);
    lemma_at_split(cs, e1, p3, xmin);
    lemma_at_split(cs, e1, p2, sp);
    lemma_at_split(cs, e1, sp, quoted(name));
    lemma_at_index(cs, e1, sp, 0);
    lemma_read_text(cs, p, q, nl, crate::model::kind_name(kind));
    crate::model::lemma_kind_name_round_trip(kind);
    lemma_at_index(cs, e1 + p2.len(), sp, 0);
    lemma_read_text(cs, e1, e1, sp, name);
    lemma_at_index(cs, e1 + p4.len(), sp, 0);
    lemma_read_number(cs, e1 + p2.len(), e1 + p2.len(), sp, xmin);
    let e4 = e1 + f.len();
    lemma_at_index(cs, e4, sp, 0);
    lemma_read_number(cs, e1 + p4.len(), e1 + p4.len(), sp, xmax);
    let e5 = e4 + 1 + d.len();
    if li.len() > 0 {
        lemma_short_item_first(intervals[0], PointModel { number: seq![], mark: seq![] }, t);
        assert(li == short_interval(intervals[0]) + short_intervals(intervals.drop_first()));
        lemma_at_index(cs, e5, li, 0);
    }
    lemma_read_integer(cs, e4, e4, sp, intervals.len());
    assert forall|i: int| 0 <= i < intervals.len() implies number_text(
        #[trigger] intervals[i].xmin,
    ) && number_text(intervals[i].xmax) by {
        assert(tier_writable(t));
    }
    lemma_short_intervals(cs, e5, e5, intervals);
}

#[verifier::rlimit(60)]
proof fn lemma_short_text_tier(
    cs: Seq<char>,
    p: int,
    q: int,
    t: TierModel<Seq<char>>,
    name: Seq<char>,
    xmin: Seq<char>,
    xmax: Seq<char>,
    points: Seq<PointModel<Seq<char>>>,
)
    requires
        t == (TierModel::Text { name, xmin, xmax, points }),
        fits(cs),
        skips(cs, p, q),
        at(cs, q, short_tier(t)),
        spaced(cs, q + short_tier(t).len()),
        tier_writable(t),
    ensures
        p_tier(cs, p) matches Ok((v, r)) && v == t && skips(cs, r, q + short_tier(t).len()),
{
    reveal(short_tier);
    lemma_short_leads();
    let nl = "\n"@;
    let sp = " "@;
    let kind = crate::model::TextGridTierKind::TextTier;
    let qc = quoted(crate::model::kind_name(kind));
    let f = short_tier_fields(name, xmin, xmax);
    let d = decimal(points.len());
    let lp = short_points(points);
    let m = qc + f + sp + d + lp;
    assert(short_tier(t) == nl + m);
    lemma_at_split(cs, q, nl, m);
    let q1 = q + 1;
    lemma_at_split(cs, q1, qc + f + sp + d, lp);
    lemma_at_split(cs, q1, qc + f + sp, d);
    lemma_at_split(cs, q1, qc + f, sp);
    lemma_at_split(cs, q1, qc, f);
    let p2 = sp + quoted(name);
    let p3 = p2 + sp;
    let p4 = p3 + xmin;
    let p5 = p4 + sp;
    assert(f == p5 + xmax);
    let e1 = q1 + qc.len();
    lemma_at_split(cs, e1, p5, xmax);
    lemma_at_split(cs, e1, p4, sp);
    lemma_at_split(cs, e1, p3, xmin);
    lemma_at_split(cs, e1, p2, sp);
    lemma_at_split(cs, e1, sp, quoted(name));
    lemma_at_index(cs, e1, sp, 0);
    lemma_read_text(cs, p, q, nl, crate::model::kind_name(kind));
    crate::model::lemma_kind_name_round_trip(kind);
    lemma_at_index(cs, e1 + p2.len(), sp, 0);
    lemma_read_text(cs, e1, e1, sp, name);
    lemma_at_index(cs, e1 + p4.len(), sp, 0);
    lemma_read_number(cs, e1 + p2.len(), e1 + p2.len(), sp, xmin);
    let e4 = e1 + f.len();
    lemma_at_index(cs, e4, sp, 0);
    lemma_read_number(cs, e1 + p4.len(), e1 + p4.len(), sp, xmax);
    let e5 = e4 + 1 + d.len();
    if lp.len() > 0 {
        lemma_short_item_first(IntervalModel { xmin: seq![], xmax: seq![], text: seq![] }, points[0], t);
        assert(lp == short_point(points[0]) + short_points(points.drop_first()));
        lemma_at_index(cs, e5, lp, 0);
    }
    lemma_read_integer(cs, e4, e4, sp, points.len());
    assert forall|i: int| 0 <= i < points.len() implies number_text(#[trigger] points[i].number) by {
        assert(tier_writable(t));
    }
    lemma_short_points(cs, e5, e5, points);
}

/// Tiers of the short format are read back.
proof fn lemma_short_tiers(cs: Seq<char>, p: int, q: int, s: Seq<TierModel<Seq<char>>>)
    requires
        fits(cs),
        skips(cs, p, q),
        at(cs, q, short_tiers(s)),
        spaced(cs, q + short_tiers(s).len()),
        forall|i: int| 0 <= i < s.len() ==> tier_writable(#[trigger] s[i]),
    ensures
        p_tiers(cs, p, s.len()) matches Ok((v, r)) && v == s && skips(
            cs,
            r,
            q + short_tiers(s).len(),
        ),
    decreases s.len(),
{
    if s.len() > 0 {
        let first = short_tier(s[0]);
        let rest = short_tiers(s.drop_first());
        assert(short_tiers(s) == first + rest);
        lemma_at_split(cs, q, first, rest);
        if rest.len() > 0 {
            lemma_short_item_first(IntervalModel { xmin: seq![], xmax: seq![], text: seq![] }, PointModel { number: seq![], mark: seq![] }, s.drop_first()[0]);
            assert(rest == short_tier(s.drop_first()[0]) + short_tiers(s.drop_first().drop_first()));
            lemma_at_index(cs, q + first.len(), rest, 0);
        }
        assert(tier_writable(s[0]));
        match s[0] {
            TierModel::Interval { name, xmin, xmax, intervals } => {
                lemma_short_interval_tier(cs, p, q, s[0], name, xmin, xmax, intervals);
            },
            TierModel::Text { name, xmin, xmax, points } => {
                lemma_short_text_tier(cs, p, q, s[0], name, xmin, xmax, points);
            },
        }
        let r1 = p_tier(cs, p)->Ok_0.1;
        assert forall|i: int| 0 <= i < s.drop_first().len() implies tier_writable(
            #[trigger] s.drop_first()[i],
        ) by {
            assert(s.drop_first()[i] == s[i + 1]);
            assert(0 <= i + 1 < s.len());
        }
        lemma_short_tiers(cs, r1, q + first.len(), s.drop_first());
        assert(seq![s[0]] + s.drop_first() =~= s);
    }
}

/// Where each piece of a text made of thirteen pieces stands.
proof fn lemma_short_layout(
    cs: Seq<char>,
    a: Seq<char>,
    b: Seq<char>,
    c: Seq<char>,
    d: Seq<char>,
    x: Seq<char>,
    e: Seq<char>,
    y: Seq<char>,
    f: Seq<char>,
    h: Seq<char>,
    gg: Seq<char>,
    nn: Seq<char>,
    t: Seq<char>,
    kk: Seq<char>,
)
    requires
        cs == a + b + c + d + x + e + y + f + h + gg + nn + t + kk,
    ensures
        at(cs, 0, a),
        at(cs, a.len() as int, b),
        at(cs, (a + b).len() as int, c),
        at(cs, (a + b + c).len() as int, d),
        at(cs, (a + b + c + d).len() as int, x),
        at(cs, (a + b + c + d + x).len() as int, e),
        at(cs, (a + b + c + d + x + e).len() as int, y),
        at(cs, (a + b + c + d + x + e + y).len() as int, f),
        at(cs, (a + b + c + d + x + e + y + f).len() as int, h),
        at(cs, (a + b + c + d + x + e + y + f + h).len() as int, gg),
        at(cs, (a + b + c + d + x + e + y + f + h + gg).len() as int, nn),
        at(cs, (a + b + c + d + x + e + y + f + h + gg + nn).len() as int, t),
        at(cs, (a + b + c + d + x + e + y + f + h + gg + nn + t).len() as int, kk),
{
    let p1 = a + b;
    let p2 = p1 + c;
    let p3 = p2 + d;
    let p4 = p3 + x;
    let p5 = p4 + e;
    let p6 = p5 + y;
    let p7 = p6 + f;
    let p8 = p7 + h;
    let p9 = p8 + gg;
    let p10 = p9 + nn;
    let p11 = p10 + t;
    assert(at(cs, 0, cs)) by {
        assert(cs.subrange(0, cs.len() as int) =~= cs);
    }
    lemma_at_split(cs, 0, p11, kk);
    lemma_at_split(cs, 0, p10, t);
    lemma_at_split(cs, 0, p9, nn);
    lemma_at_split(cs, 0, p8, gg);
    lemma_at_split(cs, 0, p7, h);
    lemma_at_split(cs, 0, p6, f);
    lemma_at_split(cs, 0, p5, y);
    lemma_at_split(cs, 0, p4, e);
    lemma_at_split(cs, 0, p3, x);
    lemma_at_split(cs, 0, p2, d);
    lemma_at_split(cs, 0, p1, c);
    lemma_at_split(cs, 0, a, b);
}

/// Where the pieces of the short format start.
pub struct ShortOffsets {
    pub b: int,
    pub c: int,
    pub d: int,
    pub x: int,
    pub e: int,
    pub y: int,
    pub f: int,
    pub h: int,
    pub g: int,
    pub n: int,
    pub t: int,
    pub k: int,
}

/// Reading a text whose pieces stand where the short format puts them.
#[verifier::rlimit(60)]
proof fn lemma_short_reads(cs: Seq<char>, g: GridModel<Seq<char>>, o: ShortOffsets)
    requires
        text_writable(g),
        fits(cs),
        at(cs, 0, quoted("ooTextFile"@)),
        o.b == quoted("ooTextFile"@).len(),
        at(cs, o.b, "\n"@),
        o.c == o.b + 1,
        at(cs, o.c, quoted("TextGrid"@)),
        o.d == o.c + quoted("TextGrid"@).len(),
        at(cs, o.d, "\n"@),
        o.x == o.d + 1,
        at(cs, o.x, g.xmin),
        o.e == o.x + g.xmin.len(),
        at(cs, o.e, " "@),
        o.y == o.e + 1,
        at(cs, o.y, g.xmax),
        o.f == o.y + g.xmax.len(),
        at(cs, o.f, " "@),
        o.h == o.f + 1,
        at(cs, o.h, "<exists>"@),
        o.g == o.h + 8,
        at(cs, o.g, " "@),
        o.n == o.g + 1,
        at(cs, o.n, decimal(g.tiers.len())),
        o.t == o.n + decimal(g.tiers.len()).len(),
        at(cs, o.t, short_tiers(g.tiers)),
        o.k == o.t + short_tiers(g.tiers).len(),
        at(cs, o.k, "\n"@),
    ensures
        spec_parse(cs) == Ok::<GridModel<Seq<char>>, ParseErrorModel>(g),
{
    lemma_short_leads();
    let empty = Seq::<char>::empty();
    assert(at(cs, 0, empty)) by {
        assert(cs.subrange(0, 0) =~= empty);
    }
    lemma_at_index(cs, o.b, "\n"@, 0);
    lemma_read_text(cs, 0, 0, empty, "ooTextFile"@);
    lemma_at_index(cs, o.d, "\n"@, 0);
    lemma_read_text(cs, o.b, o.b, "\n"@, "TextGrid"@);
    lemma_at_index(cs, o.e, " "@, 0);
    lemma_read_number(cs, o.d, o.d, "\n"@, g.xmin);
    lemma_at_index(cs, o.f, " "@, 0);
    lemma_read_number(cs, o.e, o.e, " "@, g.xmax);
    lemma_read_exists(cs, o.f, o.f, " "@);
    lemma_at_index(cs, o.k, "\n"@, 0);
    let t = short_tiers(g.tiers);
    if g.tiers.len() > 0 {
        lemma_short_item_first(IntervalModel { xmin: seq![], xmax: seq![], text: seq![] }, PointModel { number: seq![], mark: seq![] }, g.tiers[0]);
        assert(t == short_tier(g.tiers[0]) + short_tiers(g.tiers.drop_first()));
        lemma_at_index(cs, o.t, t, 0);
    }
    lemma_read_integer(cs, o.g, o.g, " "@, g.tiers.len());
    if g.tiers.len() > 0 {
        lemma_short_tiers(cs, o.t, o.t, g.tiers);
    } else {
        assert(g.tiers =~= Seq::<TierModel<Seq<char>>>::empty());
    }
    assert(p_constant(cs, 0, "ooTextFile"@) == Ok::<((), int), ParseErrorModel>(((), o.b)));
    assert(p_constant(cs, o.b, "TextGrid"@) == Ok::<((), int), ParseErrorModel>(((), o.d)));
    assert(p_number(cs, o.d) == Ok::<(Seq<char>, int), ParseErrorModel>((g.xmin, o.e)));
    assert(p_number(cs, o.e) == Ok::<(Seq<char>, int), ParseErrorModel>((g.xmax, o.f)));
    assert(p_integer(cs, o.g) == Ok::<(i64, int), ParseErrorModel>((g.tiers.len() as i64, o.t)));
    assert(crate::text_format::parser::p_tier_list(cs, o.g) == Ok::<Seq<TierModel<Seq<char>>>, ParseErrorModel>(g.tiers));
}

/// The short text format of a TextGrid reads back as that TextGrid.
#[verifier::rlimit(60)]
pub proof fn lemma_short_round_trip(g: GridModel<Seq<char>>)
    requires
        text_writable(g),
        short_text(g).len() <= usize::MAX,
    ensures
        spec_parse(short_text(g)) == Ok::<GridModel<Seq<char>>, ParseErrorModel>(g),
{
    let cs = short_text(g);
    let a = quoted("ooTextFile"@);
    let b = "\n"@;
    let c = quoted("TextGrid"@);
    let d = "\n"@;
    let x = g.xmin;
    let e = " "@;
    let y = g.xmax;
    let f = " "@;
    let h = "<exists>"@;
    let gg = " "@;
    let nn = decimal(g.tiers.len());
    let t = short_tiers(g.tiers);
    let kk = "\n"@;
    assert(cs == a + b + c + d + x + e + y + f + h + gg + nn + t + kk) by {
        reveal(short_text);
    }
    lemma_short_layout(cs, a, b, c, d, x, e, y, f, h, gg, nn, t, kk);
    lemma_short_leads();
    let o = ShortOffsets {
        b: a.len() as int,
        c: (a + b).len() as int,
        d: (a + b + c).len() as int,
        x: (a + b + c + d).len() as int,
        e: (a + b + c + d + x).len() as int,
        y: (a + b + c + d + x + e).len() as int,
        f: (a + b + c + d + x + e + y).len() as int,
        h: (a + b + c + d + x + e + y + f).len() as int,
        g: (a + b + c + d + x + e + y + f + h).len() as int,
        n: (a + b + c + d + x + e + y + f + h + gg).len() as int,
        t: (a + b + c + d + x + e + y + f + h + gg + nn).len() as int,
        k: (a + b + c + d + x + e + y + f + h + gg + nn + t).len() as int,
    };
    lemma_short_reads(cs, g, o);
}

/// What the stringifiers write reads back as the TextGrid written, in both
/// text formats, whenever each number is written as the text of one number
/// token and the text fits in memory.
pub proof fn law_text_round_trip(g: GridModel<Seq<char>>)
    requires
        text_writable(g),
        long_text(g).len() <= usize::MAX,
        short_text(g).len() <= usize::MAX,
    ensures
        spec_parse(long_text(g)) == Ok::<GridModel<Seq<char>>, ParseErrorModel>(g),
        spec_parse(short_text(g)) == Ok::<GridModel<Seq<char>>, ParseErrorModel>(g),
{
    lemma_long_round_trip(g);
    lemma_short_round_trip(g);
}

} // verus!
