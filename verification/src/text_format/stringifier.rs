//! Writing the text TextGrid format, long and short.
//!
//! Both formats are described as a sequence of separators each followed by a
//! value (a number, a quoted text or the flag `<exists>`), and a final line
//! feed.
use vstd::prelude::*;

use crate::model::{
    intervals_view, kind_name, points_view, tiers_view, GridModel, IntervalModel, PointModel,
    TextGrid, TextGridInterval, TextGridIntervalTier, TextGridPoint, TextGridTextTier,
    TextGridTier, TextGridTierKind, TierModel,
};
use crate::text_format::escape::{escape, escape_text, quoted};
use crate::textbuf::{decimal, push_char, push_decimal, push_str};

verus! {

// ---------------------------------------------------------------------------
// The long format.

/// One interval of the long format; `k` is its number, counted from 1.
pub open spec fn long_interval(iv: IntervalModel<Seq<char>>, k: nat) -> Seq<char> {
    "\n        intervals ["@ + decimal(k) + "]:\n            xmin = "@ + iv.xmin
        + "\n            xmax = "@ + iv.xmax + "\n            text = "@ + quoted(iv.text)
}

/// One point of the long format; `k` is its number, counted from 1.
pub open spec fn long_point(p: PointModel<Seq<char>>, k: nat) -> Seq<char> {
    "\n        points ["@ + decimal(k) + "]:\n            number = "@ + p.number
        + "\n            mark = "@ + quoted(p.mark)
}

/// Intervals of the long format, numbered from `k + 1`.
pub open spec fn long_intervals(s: Seq<IntervalModel<Seq<char>>>, k: nat) -> Seq<char>
    decreases s.len(),
{
    if s.len() == 0 {
        seq![]
    } else {
        long_interval(s[0], k + 1) + long_intervals(s.drop_first(), k + 1)
    }
}

/// Points of the long format, numbered from `k + 1`.
pub open spec fn long_points(s: Seq<PointModel<Seq<char>>>, k: nat) -> Seq<char>
    decreases s.len(),
{
    if s.len() == 0 {
        seq![]
    } else {
        long_point(s[0], k + 1) + long_points(s.drop_first(), k + 1)
    }
}

/// The fields of a tier of the long format after its class.
pub open spec fn long_tier_fields(
    name: Seq<char>,
    xmin: Seq<char>,
    xmax: Seq<char>,
) -> Seq<char> {
    "\n        name = "@ + quoted(name) + "\n        xmin = "@ + xmin + "\n        xmax = "@ + xmax
}

/// One tier of the long format; `k` is its number, counted from 1.
#[verifier::opaque]
pub open spec fn long_tier(t: TierModel<Seq<char>>, k: nat) -> Seq<char> {
    "\n    item ["@ + decimal(k) + "]:\n        class = "@ + match t {
        TierModel::Interval { name, xmin, xmax, intervals } => quoted(
            kind_name(TextGridTierKind::IntervalTier),
        ) + long_tier_fields(name, xmin, xmax) + "\n        intervals: size = "@ + decimal(
            intervals.len(),
        ) + long_intervals(intervals, 0),
        TierModel::Text { name, xmin, xmax, points } => quoted(
            kind_name(TextGridTierKind::TextTier),
        ) + long_tier_fields(name, xmin, xmax) + "\n        points: size = "@ + decimal(
            points.len(),
        ) + long_points(points, 0),
    }
}

/// Tiers of the long format, numbered from `k + 1`.
pub open spec fn long_tiers(s: Seq<TierModel<Seq<char>>>, k: nat) -> Seq<char>
    decreases s.len(),
{
    if s.len() == 0 {
        seq![]
    } else {
        long_tier(s[0], k + 1) + long_tiers(s.drop_first(), k + 1)
    }
}

/// The long text format of a TextGrid; numbers are written as their texts.
#[verifier::opaque]
pub open spec fn long_text(g: GridModel<Seq<char>>) -> Seq<char> {
    "File type = "@ + quoted("ooTextFile"@) + "\nObject class = "@ + quoted("TextGrid"@)
        + "\n\nxmin = "@ + g.xmin + "\nxmax = "@ + g.xmax + "\ntiers? "@ + "<exists>"@
        + "\nsize = "@ + decimal(g.tiers.len()) + "\nitem []:"@ + long_tiers(g.tiers, 0)
        + "\n"@
}

// ---------------------------------------------------------------------------
// The short format.

/// One interval of the short format.
pub open spec fn short_interval(iv: IntervalModel<Seq<char>>) -> Seq<char> {
    "\n"@ + iv.xmin + " "@ + iv.xmax + " "@ + quoted(iv.text)
}

/// One point of the short format.
pub open spec fn short_point(p: PointModel<Seq<char>>) -> Seq<char> {
    "\n"@ + p.number + " "@ + quoted(p.mark)
}

/// Intervals of the short format.
pub open spec fn short_intervals(s: Seq<IntervalModel<Seq<char>>>) -> Seq<char>
    decreases s.len(),
{
    if s.len() == 0 {
        seq![]
    } else {
        short_interval(s[0]) + short_intervals(s.drop_first())
    }
}

/// Points of the short format.
pub open spec fn short_points(s: Seq<PointModel<Seq<char>>>) -> Seq<char>
    decreases s.len(),
{
    if s.len() == 0 {
        seq![]
    } else {
        short_point(s[0]) + short_points(s.drop_first())
    }
}

/// The fields of a tier of the short format after its class.
pub open spec fn short_tier_fields(name: Seq<char>, xmin: Seq<char>, xmax: Seq<char>) -> Seq<char> {
    " "@ + quoted(name) + " "@ + xmin + " "@ + xmax
}

/// One tier of the short format.
#[verifier::opaque]
pub open spec fn short_tier(t: TierModel<Seq<char>>) -> Seq<char> {
    "\n"@ + match t {
        TierModel::Interval { name, xmin, xmax, intervals } => quoted(
            kind_name(TextGridTierKind::IntervalTier),
        ) + short_tier_fields(name, xmin, xmax) + " "@ + decimal(intervals.len())
            + short_intervals(intervals),
        TierModel::Text { name, xmin, xmax, points } => quoted(
            kind_name(TextGridTierKind::TextTier),
        ) + short_tier_fields(name, xmin, xmax) + " "@ + decimal(points.len()) + short_points(
            points,
        ),
    }
}

/// Tiers of the short format.
pub open spec fn short_tiers(s: Seq<TierModel<Seq<char>>>) -> Seq<char>
    decreases s.len(),
{
    if s.len() == 0 {
        seq![]
    } else {
        short_tier(s[0]) + short_tiers(s.drop_first())
    }
}

/// The short text format of a TextGrid; numbers are written as their texts.
#[verifier::opaque]
pub open spec fn short_text(g: GridModel<Seq<char>>) -> Seq<char> {
    quoted("ooTextFile"@) + "\n"@ + quoted("TextGrid"@) + "\n"@ + g.xmin + " "@ + g.xmax + " "@
        + "<exists>"@ + " "@ + decimal(g.tiers.len()) + short_tiers(g.tiers) + "\n"@
}

// ---------------------------------------------------------------------------
// Executable writing.

fn push_quoted(out: &mut String, text: &str)
    ensures
        final(out)@ == old(out)@ + quoted(text@),
{
    push_char(out, '"');
    let e = escape_text(text);
    push_str(out, e.as_str());
    push_char(out, '"');
    assert(final(out)@ =~= old(out)@ + quoted(text@));
}

fn push_string(out: &mut String, s: &String)
    ensures
        final(out)@ == old(out)@ + s@,
{
    push_str(out, s.as_str());
}

fn write_long_interval(out: &mut String, iv: &TextGridInterval<String>, k: usize)
    ensures
        final(out)@ == old(out)@ + long_interval(iv@, k as nat),
{
    push_str(out, "\n        intervals [");
    push_decimal(out, k as u64);
    push_str(out, "]:\n            xmin = ");
    push_string(out, &iv.xmin);
    push_str(out, "\n            xmax = ");
    push_string(out, &iv.xmax);
    push_str(out, "\n            text = ");
    push_quoted(out, iv.text.as_str());
    assert(final(out)@ =~= old(out)@ + long_interval(iv@, k as nat));
}

fn write_long_point(out: &mut String, p: &TextGridPoint<String>, k: usize)
    ensures
        final(out)@ == old(out)@ + long_point(p@, k as nat),
{
    push_str(out, "\n        points [");
    push_decimal(out, k as u64);
    push_str(out, "]:\n            number = ");
    push_string(out, &p.number);
    push_str(out, "\n            mark = ");
    push_quoted(out, p.mark.as_str());
    assert(final(out)@ =~= old(out)@ + long_point(p@, k as nat));
}

fn write_long_intervals(out: &mut String, items: &Vec<TextGridInterval<String>>)
    ensures
        final(out)@ == old(out)@ + long_intervals(intervals_view(items@), 0),
{
    let n = items.len();
    let ghost all = intervals_view(items@);
    let mut i: usize = 0;
    assert(all.subrange(0, n as int) =~= all);
    while i < n
        invariant
            n == items@.len(),
            all == intervals_view(items@),
            i <= n,
            old(out)@ + long_intervals(all, 0) == out@ + long_intervals(
                all.subrange(i as int, n as int),
                i as nat,
            ),
        decreases n - i,
    {
        assert(all.subrange(i as int, n as int).drop_first() =~= all.subrange(i + 1, n as int));
        let ghost before = out@;
        write_long_interval(out, &items[i], i + 1);
        assert(before + long_intervals(all.subrange(i as int, n as int), i as nat) =~= out@
            + long_intervals(all.subrange(i + 1, n as int), (i + 1) as nat));
        i = i + 1;
    }
    assert(all.subrange(n as int, n as int) =~= Seq::<IntervalModel<Seq<char>>>::empty());
    assert(out@ + Seq::<char>::empty() =~= out@);
}

fn write_long_points(out: &mut String, items: &Vec<TextGridPoint<String>>)
    ensures
        final(out)@ == old(out)@ + long_points(points_view(items@), 0),
{
    let n = items.len();
    let ghost all = points_view(items@);
    let mut i: usize = 0;
    assert(all.subrange(0, n as int) =~= all);
    while i < n
        invariant
            n == items@.len(),
            all == points_view(items@),
            i <= n,
            old(out)@ + long_points(all, 0) == out@ + long_points(
                all.subrange(i as int, n as int),
                i as nat,
            ),
        decreases n - i,
    {
        assert(all.subrange(i as int, n as int).drop_first() =~= all.subrange(i + 1, n as int));
        let ghost before = out@;
        write_long_point(out, &items[i], i + 1);
        assert(before + long_points(all.subrange(i as int, n as int), i as nat) =~= out@
            + long_points(all.subrange(i + 1, n as int), (i + 1) as nat));
        i = i + 1;
    }
    assert(all.subrange(n as int, n as int) =~= Seq::<PointModel<Seq<char>>>::empty());
    assert(out@ + Seq::<char>::empty() =~= out@);
}

fn write_long_tier_fields(out: &mut String, name: &String, xmin: &String, xmax: &String)
    ensures
        final(out)@ == old(out)@ + long_tier_fields(name@, xmin@, xmax@),
{
    push_str(out, "\n        name = ");
    push_quoted(out, name.as_str());
    push_str(out, "\n        xmin = ");
    push_string(out, xmin);
    push_str(out, "\n        xmax = ");
    push_string(out, xmax);
    assert(final(out)@ =~= old(out)@ + long_tier_fields(name@, xmin@, xmax@));
}

fn write_long_interval_tier(out: &mut String, it: &TextGridIntervalTier<String>)
    ensures
        final(out)@ == old(out)@ + quoted(kind_name(TextGridTierKind::IntervalTier))
            + long_tier_fields(it.name@, it.xmin@, it.xmax@) + "\n        intervals: size = "@
            + decimal(it.intervals@.len()) + long_intervals(intervals_view(it.intervals@), 0),
{
    push_quoted(out, TextGridTierKind::IntervalTier.as_str());
    write_long_tier_fields(out, &it.name, &it.xmin, &it.xmax);
    push_str(out, "\n        intervals: size = ");
    push_decimal(out, it.intervals.len() as u64);
    write_long_intervals(out, &it.intervals);
}

fn write_long_text_tier(out: &mut String, tt: &TextGridTextTier<String>)
    ensures
        final(out)@ == old(out)@ + quoted(kind_name(TextGridTierKind::TextTier))
            + long_tier_fields(tt.name@, tt.xmin@, tt.xmax@) + "\n        points: size = "@
            + decimal(tt.points@.len()) + long_points(points_view(tt.points@), 0),
{
    push_quoted(out, TextGridTierKind::TextTier.as_str());
    write_long_tier_fields(out, &tt.name, &tt.xmin, &tt.xmax);
    push_str(out, "\n        points: size = ");
    push_decimal(out, tt.points.len() as u64);
    write_long_points(out, &tt.points);
}

fn write_long_tier(out: &mut String, t: &TextGridTier<String>, k: usize)
    ensures
        final(out)@ == old(out)@ + long_tier(t@, k as nat),
{
    push_str(out, "\n    item [");
    push_decimal(out, k as u64);
    push_str(out, "]:\n        class = ");
    match t {
        TextGridTier::IntervalTier(it) => {
            write_long_interval_tier(out, it);
            assert(intervals_view(it.intervals@).len() == it.intervals@.len());
        },
        TextGridTier::TextTier(tt) => {
            write_long_text_tier(out, tt);
            assert(points_view(tt.points@).len() == tt.points@.len());
        },
    }
    reveal(long_tier);
    assert(final(out)@ =~= old(out)@ + long_tier(t@, k as nat));
}

fn write_long_tiers(out: &mut String, items: &Vec<TextGridTier<String>>)
    ensures
        final(out)@ == old(out)@ + long_tiers(tiers_view(items@), 0),
{
    let n = items.len();
    let ghost all = tiers_view(items@);
    let mut i: usize = 0;
    assert(all.subrange(0, n as int) =~= all);
    while i < n
        invariant
            n == items@.len(),
            all == tiers_view(items@),
            i <= n,
            old(out)@ + long_tiers(all, 0) == out@ + long_tiers(
                all.subrange(i as int, n as int),
                i as nat,
            ),
        decreases n - i,
    {
        assert(all.subrange(i as int, n as int).drop_first() =~= all.subrange(i + 1, n as int));
        let ghost before = out@;
        write_long_tier(out, &items[i], i + 1);
        assert(before + long_tiers(all.subrange(i as int, n as int), i as nat) =~= out@
            + long_tiers(all.subrange(i + 1, n as int), (i + 1) as nat));
        i = i + 1;
    }
    assert(all.subrange(n as int, n as int) =~= Seq::<TierModel<Seq<char>>>::empty());
    assert(out@ + Seq::<char>::empty() =~= out@);
}

/// Writes a TextGrid in the long text format: exactly `long_text` of it.
pub fn stringify_long(input: &TextGrid<String>) -> (r: String)
    ensures
        r@ == long_text(input@),
{
    let mut out = String::new();
    push_str(&mut out, "File type = ");
    push_quoted(&mut out, "ooTextFile");
    push_str(&mut out, "\nObject class = ");
    push_quoted(&mut out, "TextGrid");
    push_str(&mut out, "\n\nxmin = ");
    push_string(&mut out, &input.xmin);
    push_str(&mut out, "\nxmax = ");
    push_string(&mut out, &input.xmax);
    push_str(&mut out, "\ntiers? ");
    push_str(&mut out, "<exists>");
    push_str(&mut out, "\nsize = ");
    push_decimal(&mut out, input.tiers.len() as u64);
    push_str(&mut out, "\nitem []:");
    write_long_tiers(&mut out, &input.tiers);
    push_str(&mut out, "\n");
    assert(tiers_view(input.tiers@).len() == input.tiers@.len());
    reveal(long_text);
    assert(out@ =~= long_text(input@));
    out
}

// ---------------------------------------------------------------------------

fn write_short_interval(out: &mut String, iv: &TextGridInterval<String>)
    ensures
        final(out)@ == old(out)@ + short_interval(iv@),
{
    push_str(out, "\n");
    push_string(out, &iv.xmin);
    push_str(out, " ");
    push_string(out, &iv.xmax);
    push_str(out, " ");
    push_quoted(out, iv.text.as_str());
    assert(final(out)@ =~= old(out)@ + short_interval(iv@));
}

fn write_short_point(out: &mut String, p: &TextGridPoint<String>)
    ensures
        final(out)@ == old(out)@ + short_point(p@),
{
    push_str(out, "\n");
    push_string(out, &p.number);
    push_str(out, " ");
    push_quoted(out, p.mark.as_str());
    assert(final(out)@ =~= old(out)@ + short_point(p@));
}

fn write_short_intervals(out: &mut String, items: &Vec<TextGridInterval<String>>)
    ensures
        final(out)@ == old(out)@ + short_intervals(intervals_view(items@)),
{
    let n = items.len();
    let ghost all = intervals_view(items@);
    let mut i: usize = 0;
    assert(all.subrange(0, n as int) =~= all);
    while i < n
        invariant
            n == items@.len(),
            all == intervals_view(items@),
            i <= n,
            old(out)@ + short_intervals(all) == out@ + short_intervals(all.subrange(i as int, n as int)),
        decreases n - i,
    {
        assert(all.subrange(i as int, n as int).drop_first() =~= all.subrange(i + 1, n as int));
        let ghost before = out@;
        write_short_interval(out, &items[i]);
        assert(before + short_intervals(all.subrange(i as int, n as int)) =~= out@ + short_intervals(
            all.subrange(i + 1, n as int),
        ));
        i = i + 1;
    }
    assert(all.subrange(n as int, n as int) =~= Seq::<IntervalModel<Seq<char>>>::empty());
    assert(out@ + Seq::<char>::empty() =~= out@);
}

fn write_short_points(out: &mut String, items: &Vec<TextGridPoint<String>>)
    ensures
        final(out)@ == old(out)@ + short_points(points_view(items@)),
{
    let n = items.len();
    let ghost all = points_view(items@);
    let mut i: usize = 0;
    assert(all.subrange(0, n as int) =~= all);
    while i < n
        invariant
            n == items@.len(),
            all == points_view(items@),
            i <= n,
            old(out)@ + short_points(all) == out@ + short_points(all.subrange(i as int, n as int)),
        decreases n - i,
    {
        assert(all.subrange(i as int, n as int).drop_first() =~= all.subrange(i + 1, n as int));
        let ghost before = out@;
        write_short_point(out, &items[i]);
        assert(before + short_points(all.subrange(i as int, n as int)) =~= out@ + short_points(
            all.subrange(i + 1, n as int),
        ));
        i = i + 1;
    }
    assert(all.subrange(n as int, n as int) =~= Seq::<PointModel<Seq<char>>>::empty());
    assert(out@ + Seq::<char>::empty() =~= out@);
}

fn write_short_tier_fields(out: &mut String, name: &String, xmin: &String, xmax: &String)
    ensures
        final(out)@ == old(out)@ + short_tier_fields(name@, xmin@, xmax@),
{
    push_str(out, " ");
    push_quoted(out, name.as_str());
    push_str(out, " ");
    push_string(out, xmin);
    push_str(out, " ");
    push_string(out, xmax);
    assert(final(out)@ =~= old(out)@ + short_tier_fields(name@, xmin@, xmax@));
}

fn write_short_tier(out: &mut String, t: &TextGridTier<String>)
    ensures
        final(out)@ == old(out)@ + short_tier(t@),
{
    push_str(out, "\n");
    match t {
        TextGridTier::IntervalTier(it) => {
            push_quoted(out, TextGridTierKind::IntervalTier.as_str());
            write_short_tier_fields(out, &it.name, &it.xmin, &it.xmax);
            push_str(out, " ");
            push_decimal(out, it.intervals.len() as u64);
            write_short_intervals(out, &it.intervals);
            assert(intervals_view(it.intervals@).len() == it.intervals@.len());
        },
        TextGridTier::TextTier(tt) => {
            push_quoted(out, TextGridTierKind::TextTier.as_str());
            write_short_tier_fields(out, &tt.name, &tt.xmin, &tt.xmax);
            push_str(out, " ");
            push_decimal(out, tt.points.len() as u64);
            write_short_points(out, &tt.points);
            assert(points_view(tt.points@).len() == tt.points@.len());
        },
    }
    reveal(short_tier);
    assert(final(out)@ =~= old(out)@ + short_tier(t@));
}

fn write_short_tiers(out: &mut String, items: &Vec<TextGridTier<String>>)
    ensures
        final(out)@ == old(out)@ + short_tiers(tiers_view(items@)),
{
    let n = items.len();
    let ghost all = tiers_view(items@);
    let mut i: usize = 0;
    assert(all.subrange(0, n as int) =~= all);
    while i < n
        invariant
            n == items@.len(),
            all == tiers_view(items@),
            i <= n,
            old(out)@ + short_tiers(all) == out@ + short_tiers(all.subrange(i as int, n as int)),
        decreases n - i,
    {
        assert(all.subrange(i as int, n as int).drop_first() =~= all.subrange(i + 1, n as int));
        let ghost before = out@;
        write_short_tier(out, &items[i]);
        assert(before + short_tiers(all.subrange(i as int, n as int)) =~= out@ + short_tiers(
            all.subrange(i + 1, n as int),
        ));
        i = i + 1;
    }
    assert(all.subrange(n as int, n as int) =~= Seq::<TierModel<Seq<char>>>::empty());
    assert(out@ + Seq::<char>::empty() =~= out@);
}

/// Writes a TextGrid in the short text format: exactly `short_text` of it.
pub fn stringify_short(input: &TextGrid<String>) -> (r: String)
    ensures
        r@ == short_text(input@),
{
    let mut out = String::new();
    push_quoted(&mut out, "ooTextFile");
    push_str(&mut out, "\n");
    push_quoted(&mut out, "TextGrid");
    push_str(&mut out, "\n");
    push_string(&mut out, &input.xmin);
    push_str(&mut out, " ");
    push_string(&mut out, &input.xmax);
    push_str(&mut out, " ");
    push_str(&mut out, "<exists>");
    push_str(&mut out, " ");
    push_decimal(&mut out, input.tiers.len() as u64);
    write_short_tiers(&mut out, &input.tiers);
    push_str(&mut out, "\n");
    assert(tiers_view(input.tiers@).len() == input.tiers@.len());
    reveal(short_text);
    assert(out@ =~= short_text(input@));
    out
}

} // verus!
