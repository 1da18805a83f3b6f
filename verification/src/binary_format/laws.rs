//! What writing and reading the binary format promise together.
use vstd::prelude::*;

use crate::binary_format::be::{
    be_bytes, be_value, from_twos, lemma_be_round_trip, lemma_p256_values, to_twos,
};
use crate::binary_format::deserializer::{
    all_ascii, ascii_chars, be_units, des_bytes, des_header, des_i16, des_i32, des_i8,
    des_interval, des_intervals, des_number, des_point, des_points, des_string, des_tier,
    des_tier_kind, des_tiers, prepend, spec_deserialize, DeserializeErrorModel,
};
use crate::binary_format::serializer::{
    ascii_text, header_bytes, ser_count, ser_interval, ser_intervals, ser_kind, ser_number,
    ser_point, ser_points, ser_text, ser_tier, ser_tiers, spec_serialize, then, units_bytes,
    SerializeError,
};
use crate::binary_format::{object_class_name, oo_binary_file_magic};
use crate::model::{
    ascii_bytes, kind_name_bytes, kind_of_name_bytes, lemma_kind_name_round_trip,
    lemma_kind_names_distinct, GridModel, IntervalModel, PointModel, TextGridTierKind,
    TierModel,
};
use crate::utf16::{encode_utf16, lemma_decode_encode_utf16};

verus! {

/// Whether a string can be written: ASCII text of at most 32767 characters,
/// or other text of at most 32767 UTF-16 code units.
pub open spec fn text_fits(t: Seq<char>) -> bool {
    if ascii_text(t) {
        t.len() <= 0x7FFF
    } else {
        encode_utf16(t).len() <= 0x7FFF
    }
}

/// Whether a tier can be written and read back: its strings fit and its item
/// count fits in 32 bits.
pub open spec fn tier_fits(t: TierModel<u64>) -> bool {
    match t {
        TierModel::Interval { name, intervals, .. } => {
            &&& text_fits(name)
            &&& intervals.len() <= 0x7FFF_FFFF
            &&& forall|i: int| 0 <= i < intervals.len() ==> text_fits(#[trigger] intervals[i].text)
        },
        TierModel::Text { name, points, .. } => {
            &&& text_fits(name)
            &&& points.len() <= 0x7FFF_FFFF
            &&& forall|i: int| 0 <= i < points.len() ==> text_fits(#[trigger] points[i].mark)
        },
    }
}

/// Whether a TextGrid can be written and read back.
pub open spec fn grid_fits(g: GridModel<u64>) -> bool {
    &&& g.tiers.len() <= 0x7FFF_FFFF
    &&& forall|i: int| 0 <= i < g.tiers.len() ==> tier_fits(#[trigger] g.tiers[i])
}

/// `b` stands in `s` at position `p`.
pub open spec fn at(s: Seq<u8>, p: int, b: Seq<u8>) -> bool {
    0 <= p && p + b.len() <= s.len() && s.subrange(p, p + b.len()) == b
}

proof fn lemma_at_split(s: Seq<u8>, p: int, x: Seq<u8>, y: Seq<u8>)
    requires
        at(s, p, x + y),
    ensures
        at(s, p, x),
        at(s, p + x.len(), y),
{
    let whole = s.subrange(p, p + (x + y).len());
    assert(whole == x + y);
    assert(s.subrange(p, p + x.len()) =~= whole.subrange(0, x.len() as int));
    assert(whole.subrange(0, x.len() as int) =~= x);
    assert(s.subrange(p + x.len(), p + x.len() + y.len()) =~= whole.subrange(
        x.len() as int,
        (x + y).len() as int,
    ));
    assert(whole.subrange(x.len() as int, (x + y).len() as int) =~= y);
}

proof fn lemma_ser_number_len(v: u64)
    ensures
        ser_number(v).len() == 8,
{
    lemma_p256_values();
    lemma_be_round_trip(v as nat, 8);
}

proof fn lemma_ser_count_len(n: nat)
    ensures
        ser_count(n).len() == 4,
{
    lemma_p256_values();
    let v = (n as i32) as int;
    lemma_be_round_trip(to_twos(v, 4), 4);
}

proof fn lemma_des_number(s: Seq<u8>, p: int, v: u64)
    requires
        at(s, p, ser_number(v)),
    ensures
        des_number(s, p) == Ok::<(u64, int), DeserializeErrorModel>((v, p + 8)),
{
    lemma_p256_values();
    lemma_be_round_trip(v as nat, 8);
}

proof fn lemma_des_count(s: Seq<u8>, p: int, n: nat)
    requires
        n <= 0x7FFF_FFFF,
        at(s, p, ser_count(n)),
    ensures
        des_i32(s, p) == Ok::<(i32, int), DeserializeErrorModel>((n as i32, p + 4)),
{
    lemma_p256_values();
    assert((n as i32) as int == n);
    lemma_be_round_trip(n, 4);
}

proof fn lemma_units_bytes(u: Seq<u16>)
    ensures
        units_bytes(u).len() == 2 * u.len(),
        be_units(units_bytes(u)) == u,
    decreases u.len(),
{
    lemma_p256_values();
    if u.len() > 0 {
        lemma_units_bytes(u.drop_first());
        lemma_be_round_trip(u[0] as nat, 2);
        let b = units_bytes(u);
        let h = be_bytes(u[0] as nat, 2);
        let r = units_bytes(u.drop_first());
        assert(be_value(h) == h[0] as nat * 256 + h[1] as nat) by {
            let d = h.drop_last();
            assert(d.drop_last() =~= Seq::<u8>::empty());
            assert(be_value(d.drop_last()) == 0);
            assert(d.last() == h[0]);
            assert(be_value(d) == h[0] as nat);
            assert(h.last() == h[1]);
        }
        assert forall|i: int| 0 <= i < u.len() implies #[trigger] be_units(b)[i] == u[i] by {
            if i == 0 {
            } else {
                assert(b[2 * i] == r[2 * (i - 1)]);
                assert(b[2 * i + 1] == r[2 * (i - 1) + 1]);
                assert(be_units(r)[i - 1] == u.drop_first()[i - 1]);
            }
        }
        assert(be_units(b) =~= u);
    }
}

proof fn lemma_ascii_round_trip(t: Seq<char>)
    requires
        ascii_text(t),
    ensures
        all_ascii(ascii_bytes(t)),
        ascii_chars(ascii_bytes(t)) == t,
        ascii_bytes(t).len() == t.len(),
{
    assert forall|i: int| 0 <= i < t.len() implies #[trigger] ascii_chars(ascii_bytes(t))[i] == t[i] by {
        let c = t[i];
        vstd::utf8::char_is_scalar(c);
        let c0 = c as u32;
        assert(c0 < 128);
        assert((c0 as u8) as u32 == c0) by (bit_vector)
            requires
                c0 < 128,
        ;
        let b = c0 as u8;
        assert(b as u32 == c as u32);
        vstd::utf8::char_u32_cast(c, b as u32);
        assert((b as char) as u32 == b as u32);
        vstd::utf8::char_u32_cast(b as char, b as u32);
    }
    assert(ascii_chars(ascii_bytes(t)) =~= t);
}

proof fn lemma_des_string(s: Seq<u8>, p: int, t: Seq<char>)
    requires
        text_fits(t),
        ser_text(t) is Ok,
        at(s, p, ser_text(t)->Ok_0),
    ensures
        des_string(s, p) == Ok::<(Seq<char>, int), DeserializeErrorModel>((t, p + (ser_text(t)->Ok_0).len())),
{
    lemma_p256_values();
    let b = ser_text(t)->Ok_0;
    if ascii_text(t) {
        let l = be_bytes(t.len(), 2);
        lemma_be_round_trip(t.len(), 2);
        lemma_at_split(s, p, l, ascii_bytes(t));
        assert(from_twos(t.len(), 2) == t.len());
        lemma_ascii_round_trip(t);
        assert(des_i16(s, p) == Ok::<(i16, int), DeserializeErrorModel>((t.len() as i16, p + 2)));
    } else {
        let u = encode_utf16(t);
        let m = be_bytes(to_twos(-1, 2), 2);
        let l = be_bytes(u.len(), 2);
        lemma_be_round_trip(to_twos(-1, 2), 2);
        lemma_be_round_trip(u.len(), 2);
        lemma_at_split(s, p, m + l, units_bytes(u));
        lemma_at_split(s, p, m, l);
        assert(from_twos(to_twos(-1, 2), 2) == -1);
        assert(des_i16(s, p) == Ok::<(i16, int), DeserializeErrorModel>((-1i16, p + 2)));
        assert(des_i16(s, p + 2) == Ok::<(i16, int), DeserializeErrorModel>((u.len() as i16, p + 4)));
        lemma_units_bytes(u);
        lemma_decode_encode_utf16(t);
    }
}

proof fn lemma_des_kind(s: Seq<u8>, p: int, k: TextGridTierKind)
    requires
        at(s, p, ser_kind(k)),
    ensures
        des_tier_kind(s, p) == Ok::<(TextGridTierKind, int), DeserializeErrorModel>((k, p + ser_kind(k).len())),
{
    lemma_kind_names_distinct();
    lemma_kind_name_round_trip(k);
    let n = kind_name_bytes(k);
    lemma_at_split(s, p, seq![n.len() as u8], n);
    assert(s.subrange(p, p + 1)[0] == s[p]);
    assert(s[p] == n.len() as u8);
    assert(((s[p] as i8) as usize) as nat == n.len());
}

proof fn lemma_des_interval(s: Seq<u8>, p: int, i: IntervalModel<u64>)
    requires
        text_fits(i.text),
        ser_interval(i) is Ok,
        at(s, p, ser_interval(i)->Ok_0),
    ensures
        des_interval(s, p) == Ok::<(IntervalModel<u64>, int), DeserializeErrorModel>((i, p + (ser_interval(i)->Ok_0).len())),
{
    let t = ser_text(i.text)->Ok_0;
    lemma_ser_number_len(i.xmin);
    lemma_ser_number_len(i.xmax);
    lemma_at_split(s, p, ser_number(i.xmin) + ser_number(i.xmax), t);
    lemma_at_split(s, p, ser_number(i.xmin), ser_number(i.xmax));
    lemma_des_number(s, p, i.xmin);
    lemma_des_number(s, p + 8, i.xmax);
    lemma_des_string(s, p + 16, i.text);
}

proof fn lemma_des_point(s: Seq<u8>, p: int, pt: PointModel<u64>)
    requires
        text_fits(pt.mark),
        ser_point(pt) is Ok,
        at(s, p, ser_point(pt)->Ok_0),
    ensures
        des_point(s, p) == Ok::<(PointModel<u64>, int), DeserializeErrorModel>((pt, p + (ser_point(pt)->Ok_0).len())),
{
    let t = ser_text(pt.mark)->Ok_0;
    lemma_ser_number_len(pt.number);
    lemma_at_split(s, p, ser_number(pt.number), t);
    lemma_des_number(s, p, pt.number);
    lemma_des_string(s, p + 8, pt.mark);
}

/// Every string that fits is written without error.
proof fn lemma_text_fits_ok(t: Seq<char>)
    requires
        text_fits(t),
    ensures
        ser_text(t) is Ok,
{
}

proof fn lemma_des_intervals(s: Seq<u8>, p: int, v: Seq<IntervalModel<u64>>)
    requires
        forall|i: int| 0 <= i < v.len() ==> text_fits(#[trigger] v[i].text),
        at(s, p, ser_intervals(v)->Ok_0),
    ensures
        ser_intervals(v) is Ok,
        des_intervals(s, p, v.len()) == Ok::<(Seq<IntervalModel<u64>>, int), DeserializeErrorModel>(
            (v, p + (ser_intervals(v)->Ok_0).len()),
        ),
    decreases v.len(),
{
    if v.len() > 0 {
        assert(text_fits(v[0].text));
        lemma_text_fits_ok(v[0].text);
        let rest = v.drop_first();
        assert forall|i: int| 0 <= i < rest.len() implies text_fits(#[trigger] rest[i].text) by {
            assert(rest[i] == v[i + 1]);
        }
        let x = ser_interval(v[0])->Ok_0;
        lemma_des_intervals_ok(rest);
        let y = ser_intervals(rest)->Ok_0;
        assert(ser_intervals(v) == Ok::<Seq<u8>, crate::binary_format::serializer::SerializeError>(x + y));
        lemma_at_split(s, p, x, y);
        lemma_des_interval(s, p, v[0]);
        lemma_des_intervals(s, p + x.len(), rest);
        assert(seq![v[0]] + rest =~= v);
        assert(des_intervals(s, p, v.len()) == prepend(v[0], des_intervals(s, p + x.len(), rest.len())));
    } else {
        assert(v =~= Seq::<IntervalModel<u64>>::empty());
    }
}

proof fn lemma_des_intervals_ok(v: Seq<IntervalModel<u64>>)
    requires
        forall|i: int| 0 <= i < v.len() ==> text_fits(#[trigger] v[i].text),
    ensures
        ser_intervals(v) is Ok,
    decreases v.len(),
{
    if v.len() > 0 {
        assert(text_fits(v[0].text));
        let rest = v.drop_first();
        assert forall|i: int| 0 <= i < rest.len() implies text_fits(#[trigger] rest[i].text) by {
            assert(rest[i] == v[i + 1]);
        }
        lemma_des_intervals_ok(rest);
    }
}

proof fn lemma_des_points_ok(v: Seq<PointModel<u64>>)
    requires
        forall|i: int| 0 <= i < v.len() ==> text_fits(#[trigger] v[i].mark),
    ensures
        ser_points(v) is Ok,
    decreases v.len(),
{
    if v.len() > 0 {
        assert(text_fits(v[0].mark));
        let rest = v.drop_first();
        assert forall|i: int| 0 <= i < rest.len() implies text_fits(#[trigger] rest[i].mark) by {
            assert(rest[i] == v[i + 1]);
        }
        lemma_des_points_ok(rest);
    }
}

proof fn lemma_des_points(s: Seq<u8>, p: int, v: Seq<PointModel<u64>>)
    requires
        forall|i: int| 0 <= i < v.len() ==> text_fits(#[trigger] v[i].mark),
        at(s, p, ser_points(v)->Ok_0),
    ensures
        ser_points(v) is Ok,
        des_points(s, p, v.len()) == Ok::<(Seq<PointModel<u64>>, int), DeserializeErrorModel>(
            (v, p + (ser_points(v)->Ok_0).len()),
        ),
    decreases v.len(),
{
    lemma_des_points_ok(v);
    if v.len() > 0 {
        assert(text_fits(v[0].mark));
        let rest = v.drop_first();
        assert forall|i: int| 0 <= i < rest.len() implies text_fits(#[trigger] rest[i].mark) by {
            assert(rest[i] == v[i + 1]);
        }
        let x = ser_point(v[0])->Ok_0;
        lemma_des_points_ok(rest);
        let y = ser_points(rest)->Ok_0;
        assert(ser_points(v) == Ok::<Seq<u8>, crate::binary_format::serializer::SerializeError>(x + y));
        lemma_at_split(s, p, x, y);
        lemma_des_point(s, p, v[0]);
        lemma_des_points(s, p + x.len(), rest);
        assert(seq![v[0]] + rest =~= v);
        assert(des_points(s, p, v.len()) == prepend(v[0], des_points(s, p + x.len(), rest.len())));
    } else {
        assert(v =~= Seq::<PointModel<u64>>::empty());
    }
}

proof fn lemma_tier_ok(t: TierModel<u64>)
    requires
        tier_fits(t),
    ensures
        ser_tier(t) is Ok,
{
    match t {
        TierModel::Interval { name, intervals, .. } => {
            lemma_des_intervals_ok(intervals);
        },
        TierModel::Text { name, points, .. } => {
            lemma_des_points_ok(points);
        },
    }
}

proof fn lemma_des_interval_tier(
    s: Seq<u8>,
    p: int,
    name: Seq<char>,
    xmin: u64,
    xmax: u64,
    intervals: Seq<IntervalModel<u64>>,
)
    requires
        tier_fits(TierModel::Interval { name, xmin, xmax, intervals }),
        at(s, p, ser_tier(TierModel::Interval { name, xmin, xmax, intervals })->Ok_0),
    ensures
        ser_tier(TierModel::Interval { name, xmin, xmax, intervals }) is Ok,
        des_tier(s, p) == Ok::<(TierModel<u64>, int), DeserializeErrorModel>(
            (
                TierModel::Interval { name, xmin, xmax, intervals },
                p + (ser_tier(TierModel::Interval { name, xmin, xmax, intervals })->Ok_0).len(),
            ),
        ),
{
    let t = TierModel::Interval { name, xmin, xmax, intervals };
    lemma_p256_values();
    lemma_ser_number_len(xmin);
    lemma_ser_number_len(xmax);
    lemma_ser_count_len(intervals.len());
    lemma_des_intervals_ok(intervals);
    let k = ser_kind(TextGridTierKind::IntervalTier);
    let nm = ser_text(name)->Ok_0;
    let c = ser_number(xmin) + ser_number(xmax) + ser_count(intervals.len());
    let items = ser_intervals(intervals)->Ok_0;
    assert(ser_tier(t)->Ok_0 =~= k + (nm + (c + items)));
    lemma_at_split(s, p, k, nm + (c + items));
    lemma_at_split(s, p + k.len(), nm, c + items);
    let q = p + k.len() + nm.len();
    lemma_at_split(s, q, c, items);
    lemma_at_split(s, q, ser_number(xmin) + ser_number(xmax), ser_count(intervals.len()));
    lemma_at_split(s, q, ser_number(xmin), ser_number(xmax));
    lemma_des_kind(s, p, TextGridTierKind::IntervalTier);
    lemma_des_string(s, p + k.len(), name);
    lemma_des_number(s, q, xmin);
    lemma_des_number(s, q + 8, xmax);
    lemma_des_count(s, q + 16, intervals.len());
    assert(((intervals.len() as i32) as nat) == intervals.len());
    lemma_des_intervals(s, q + 20, intervals);
}

proof fn lemma_des_text_tier(
    s: Seq<u8>,
    p: int,
    name: Seq<char>,
    xmin: u64,
    xmax: u64,
    points: Seq<PointModel<u64>>,
)
    requires
        tier_fits(TierModel::Text { name, xmin, xmax, points }),
        at(s, p, ser_tier(TierModel::Text { name, xmin, xmax, points })->Ok_0),
    ensures
        ser_tier(TierModel::Text { name, xmin, xmax, points }) is Ok,
        des_tier(s, p) == Ok::<(TierModel<u64>, int), DeserializeErrorModel>(
            (
                TierModel::Text { name, xmin, xmax, points },
                p + (ser_tier(TierModel::Text { name, xmin, xmax, points })->Ok_0).len(),
            ),
        ),
{
    let t = TierModel::Text { name, xmin, xmax, points };
    lemma_p256_values();
    lemma_ser_number_len(xmin);
    lemma_ser_number_len(xmax);
    lemma_ser_count_len(points.len());
    lemma_des_points_ok(points);
    let k = ser_kind(TextGridTierKind::TextTier);
    let nm = ser_text(name)->Ok_0;
    let c = ser_number(xmin) + ser_number(xmax) + ser_count(points.len());
    let items = ser_points(points)->Ok_0;
    assert(ser_tier(t)->Ok_0 =~= k + (nm + (c + items)));
    lemma_at_split(s, p, k, nm + (c + items));
    lemma_at_split(s, p + k.len(), nm, c + items);
    let q = p + k.len() + nm.len();
    lemma_at_split(s, q, c, items);
    lemma_at_split(s, q, ser_number(xmin) + ser_number(xmax), ser_count(points.len()));
    lemma_at_split(s, q, ser_number(xmin), ser_number(xmax));
    lemma_des_kind(s, p, TextGridTierKind::TextTier);
    lemma_des_string(s, p + k.len(), name);
    lemma_des_number(s, q, xmin);
    lemma_des_number(s, q + 8, xmax);
    lemma_des_count(s, q + 16, points.len());
    assert(((points.len() as i32) as nat) == points.len());
    lemma_des_points(s, q + 20, points);
}

proof fn lemma_des_tier(s: Seq<u8>, p: int, t: TierModel<u64>)
    requires
        tier_fits(t),
        at(s, p, ser_tier(t)->Ok_0),
    ensures
        ser_tier(t) is Ok,
        des_tier(s, p) == Ok::<(TierModel<u64>, int), DeserializeErrorModel>((t, p + (ser_tier(t)->Ok_0).len())),
{
    match t {
        TierModel::Interval { name, xmin, xmax, intervals } => {
            lemma_des_interval_tier(s, p, name, xmin, xmax, intervals);
        },
        TierModel::Text { name, xmin, xmax, points } => {
            lemma_des_text_tier(s, p, name, xmin, xmax, points);
        },
    }
}

proof fn lemma_tiers_ok(v: Seq<TierModel<u64>>)
    requires
        forall|i: int| 0 <= i < v.len() ==> tier_fits(#[trigger] v[i]),
    ensures
        ser_tiers(v) is Ok,
    decreases v.len(),
{
    if v.len() > 0 {
        assert(tier_fits(v[0]));
        lemma_tier_ok(v[0]);
        let rest = v.drop_first();
        assert forall|i: int| 0 <= i < rest.len() implies tier_fits(#[trigger] rest[i]) by {
            assert(rest[i] == v[i + 1]);
        }
        lemma_tiers_ok(rest);
    }
}

#[verifier::rlimit(60)]
proof fn lemma_des_tiers(s: Seq<u8>, p: int, v: Seq<TierModel<u64>>)
    requires
        forall|i: int| 0 <= i < v.len() ==> tier_fits(#[trigger] v[i]),
        at(s, p, ser_tiers(v)->Ok_0),
    ensures
        ser_tiers(v) is Ok,
        des_tiers(s, p, v.len()) == Ok::<(Seq<TierModel<u64>>, int), DeserializeErrorModel>(
            (v, p + (ser_tiers(v)->Ok_0).len()),
        ),
    decreases v.len(),
{
    lemma_tiers_ok(v);
    if v.len() > 0 {
        assert(tier_fits(v[0]));
        let rest = v.drop_first();
        assert forall|i: int| 0 <= i < rest.len() implies tier_fits(#[trigger] rest[i]) by {
            assert(rest[i] == v[i + 1]);
        }
        lemma_tier_ok(v[0]);
        lemma_tiers_ok(rest);
        let x = ser_tier(v[0])->Ok_0;
        let y = ser_tiers(rest)->Ok_0;
        assert(ser_tiers(v) == Ok::<Seq<u8>, crate::binary_format::serializer::SerializeError>(x + y));
        lemma_at_split(s, p, x, y);
        lemma_des_tier(s, p, v[0]);
        lemma_des_tiers(s, p + x.len(), rest);
        assert(seq![v[0]] + rest =~= v);
        assert(des_tiers(s, p, v.len()) == prepend(v[0], des_tiers(s, p + x.len(), rest.len())));
    } else {
        assert(v =~= Seq::<TierModel<u64>>::empty());
    }
}

/// Writing a TextGrid whose strings and counts fit gives bytes, and reading
/// those bytes gives the same TextGrid back.
pub proof fn law_binary_round_trip(g: GridModel<u64>)
    requires
        grid_fits(g),
    ensures
        spec_serialize(g) is Ok,
        spec_deserialize(spec_serialize(g)->Ok_0) == Ok::<GridModel<u64>, DeserializeErrorModel>(g),
{
    lemma_tiers_ok(g.tiers);
    lemma_p256_values();
    reveal_strlit("ooBinaryFile");
    reveal_strlit("TextGrid");
    let h = header_bytes();
    lemma_ser_number_len(g.xmin);
    lemma_ser_number_len(g.xmax);
    lemma_ser_count_len(g.tiers.len());
    let body = ser_number(g.xmin) + ser_number(g.xmax) + seq![1u8] + ser_count(g.tiers.len());
    let tiers = ser_tiers(g.tiers)->Ok_0;
    let s = spec_serialize(g)->Ok_0;
    assert(s =~= h + (body + tiers));
    assert(s.subrange(0, s.len() as int) =~= s);
    lemma_at_split(s, 0, h, body + tiers);
    let hl = h.len() as int;
    lemma_at_split(s, hl, body, tiers);
    lemma_at_split(s, hl, ser_number(g.xmin) + ser_number(g.xmax) + seq![1u8], ser_count(g.tiers.len()));
    lemma_at_split(s, hl, ser_number(g.xmin) + ser_number(g.xmax), seq![1u8]);
    lemma_at_split(s, hl, ser_number(g.xmin), ser_number(g.xmax));
    let magic = oo_binary_file_magic();
    let class = object_class_name();
    assert(h =~= magic + (seq![class.len() as u8] + class));
    lemma_at_split(s, 0, magic, seq![class.len() as u8] + class);
    lemma_at_split(s, magic.len() as int, seq![class.len() as u8], class);
    assert(des_header(s) == Ok::<int, DeserializeErrorModel>(hl));
    lemma_des_number(s, hl, g.xmin);
    lemma_des_number(s, hl + 8, g.xmax);
    assert(s[hl + 16] == 1u8);
    lemma_des_count(s, hl + 17, g.tiers.len());
    assert(((g.tiers.len() as i32) as nat) == g.tiers.len());
    lemma_des_tiers(s, hl + 21, g.tiers);
}

/// The two big-endian bytes of a short ASCII text's length, then its bytes.
proof fn lemma_short_ascii_bytes(t: Seq<char>)
    requires
        ascii_text(t),
        t.len() <= 0x7FFF,
    ensures
        ser_text(t) == Ok::<Seq<u8>, SerializeError>(be_bytes(t.len(), 2) + ascii_bytes(t)),
        be_bytes(t.len(), 2).len() == 2,
        ascii_bytes(t).len() == t.len(),
        text_fits(t),
{
    lemma_p256_values();
    lemma_be_round_trip(t.len(), 2);
}

/// A point with an ASCII mark of at most 32767 characters is written as the
/// eight big-endian bytes of its number, then the two big-endian bytes of the
/// mark's length, then the mark's bytes.
pub proof fn law_point_layout(pt: PointModel<u64>)
    requires
        ascii_text(pt.mark),
        pt.mark.len() <= 0x7FFF,
    ensures
        ser_point(pt) == Ok::<Seq<u8>, SerializeError>(
            be_bytes(pt.number as nat, 8) + be_bytes(pt.mark.len(), 2) + ascii_bytes(pt.mark),
        ),
{
    lemma_short_ascii_bytes(pt.mark);
    assert(be_bytes(pt.number as nat, 8) + (be_bytes(pt.mark.len(), 2) + ascii_bytes(pt.mark))
        =~= be_bytes(pt.number as nat, 8) + be_bytes(pt.mark.len(), 2) + ascii_bytes(pt.mark));
}

/// An interval with an ASCII text of at most 32767 characters is written as
/// the eight big-endian bytes of its start, those of its end, then the two
/// big-endian bytes of the text's length, then the text's bytes.
pub proof fn law_interval_layout(i: IntervalModel<u64>)
    requires
        ascii_text(i.text),
        i.text.len() <= 0x7FFF,
    ensures
        ser_interval(i) == Ok::<Seq<u8>, SerializeError>(
            be_bytes(i.xmin as nat, 8) + be_bytes(i.xmax as nat, 8) + be_bytes(i.text.len(), 2)
                + ascii_bytes(i.text),
        ),
{
    lemma_short_ascii_bytes(i.text);
    assert(be_bytes(i.xmin as nat, 8) + be_bytes(i.xmax as nat, 8) + (be_bytes(i.text.len(), 2)
        + ascii_bytes(i.text)) =~= be_bytes(i.xmin as nat, 8) + be_bytes(i.xmax as nat, 8)
        + be_bytes(i.text.len(), 2) + ascii_bytes(i.text));
}

/// Where the bytes at `pos` are the eight big-endian bytes of a number, then
/// the two big-endian bytes of a length of at most 32767, then that many ASCII
/// bytes, a point read there has that number and that text as its mark, and
/// reading goes on after them.
pub proof fn law_point_read(s: Seq<u8>, pos: int, number: u64, mark: Seq<char>)
    requires
        0 <= pos,
        pos + 10 + mark.len() <= s.len(),
        ascii_text(mark),
        mark.len() <= 0x7FFF,
        s.subrange(pos, pos + 8) == be_bytes(number as nat, 8),
        s.subrange(pos + 8, pos + 10) == be_bytes(mark.len(), 2),
        s.subrange(pos + 10, pos + 10 + mark.len()) == ascii_bytes(mark),
    ensures
        des_point(s, pos) == Ok::<(PointModel<u64>, int), DeserializeErrorModel>(
            (PointModel { number, mark }, pos + 10 + mark.len()),
        ),
{
    let pt = PointModel { number, mark };
    law_point_layout(pt);
    lemma_short_ascii_bytes(mark);
    lemma_ser_number_len(number);
    let b = be_bytes(number as nat, 8) + be_bytes(mark.len(), 2) + ascii_bytes(mark);
    assert(s.subrange(pos, pos + b.len()) =~= b);
    lemma_des_point(s, pos, pt);
}

/// Where the bytes at `pos` are the eight big-endian bytes of a start, those
/// of an end, then the two big-endian bytes of a length of at most 32767, then
/// that many ASCII bytes, an interval read there has that start, that end and
/// that text, and reading goes on after them.
pub proof fn law_interval_read(s: Seq<u8>, pos: int, xmin: u64, xmax: u64, text: Seq<char>)
    requires
        0 <= pos,
        pos + 18 + text.len() <= s.len(),
        ascii_text(text),
        text.len() <= 0x7FFF,
        s.subrange(pos, pos + 8) == be_bytes(xmin as nat, 8),
        s.subrange(pos + 8, pos + 16) == be_bytes(xmax as nat, 8),
        s.subrange(pos + 16, pos + 18) == be_bytes(text.len(), 2),
        s.subrange(pos + 18, pos + 18 + text.len()) == ascii_bytes(text),
    ensures
        des_interval(s, pos) == Ok::<(IntervalModel<u64>, int), DeserializeErrorModel>(
            (IntervalModel { xmin, xmax, text }, pos + 18 + text.len()),
        ),
{
    let i = IntervalModel { xmin, xmax, text };
    law_interval_layout(i);
    lemma_short_ascii_bytes(text);
    lemma_ser_number_len(xmin);
    lemma_ser_number_len(xmax);
    let b = be_bytes(xmin as nat, 8) + be_bytes(xmax as nat, 8) + be_bytes(text.len(), 2)
        + ascii_bytes(text);
    assert(s.subrange(pos, pos + b.len()) =~= b);
    lemma_des_interval(s, pos, i);
}

/// A TextGrid that fits is written as the magic `ooBinaryFile`, the length
/// byte 8 and the class `TextGrid`, then the eight big-endian bytes of its
/// start, those of its end, the byte 1 and the four big-endian bytes of its
/// tier count; its tiers follow.
pub proof fn law_header_layout(g: GridModel<u64>)
    requires
        grid_fits(g),
    ensures
        spec_serialize(g) is Ok,
        (spec_serialize(g)->Ok_0).len() >= 42,
        (spec_serialize(g)->Ok_0).subrange(0, 42) == ascii_bytes("ooBinaryFile"@) + seq![8u8]
            + ascii_bytes("TextGrid"@) + be_bytes(g.xmin as nat, 8) + be_bytes(g.xmax as nat, 8)
            + seq![1u8] + be_bytes(g.tiers.len(), 4),
{
    lemma_tiers_ok(g.tiers);
    lemma_p256_values();
    reveal_strlit("ooBinaryFile");
    reveal_strlit("TextGrid");
    lemma_ser_number_len(g.xmin);
    lemma_ser_number_len(g.xmax);
    assert((g.tiers.len() as i32) as int == g.tiers.len());
    lemma_be_round_trip(g.tiers.len(), 4);
    let pre = ascii_bytes("ooBinaryFile"@) + seq![8u8] + ascii_bytes("TextGrid"@) + be_bytes(
        g.xmin as nat,
        8,
    ) + be_bytes(g.xmax as nat, 8) + seq![1u8] + be_bytes(g.tiers.len(), 4);
    let tiers = ser_tiers(g.tiers)->Ok_0;
    let b = spec_serialize(g)->Ok_0;
    assert(header_bytes() =~= ascii_bytes("ooBinaryFile"@) + seq![8u8] + ascii_bytes("TextGrid"@));
    assert(b =~= pre + tiers);
    assert(pre.len() == 42);
    assert(b.subrange(0, 42) =~= pre);
}

/// Bytes that begin with the magic `ooBinaryFile`, the length byte 8, the
/// class `TextGrid`, the eight big-endian bytes of a start, those of an end,
/// and the byte 0 are read as a TextGrid of that time domain without tiers,
/// whatever follows.
pub proof fn law_read_grid_without_tiers(s: Seq<u8>, xmin: u64, xmax: u64)
    requires
        s.len() >= 38,
        s.subrange(0, 38) == ascii_bytes("ooBinaryFile"@) + seq![8u8] + ascii_bytes("TextGrid"@)
            + be_bytes(xmin as nat, 8) + be_bytes(xmax as nat, 8) + seq![0u8],
    ensures
        spec_deserialize(s) == Ok::<GridModel<u64>, DeserializeErrorModel>(
            GridModel { xmin, xmax, tiers: seq![] },
        ),
{
    lemma_p256_values();
    reveal_strlit("ooBinaryFile");
    reveal_strlit("TextGrid");
    lemma_ser_number_len(xmin);
    lemma_ser_number_len(xmax);
    let magic = oo_binary_file_magic();
    let class = object_class_name();
    let h = magic + (seq![8u8] + class);
    let whole = h + (ser_number(xmin) + (ser_number(xmax) + seq![0u8]));
    assert(s.subrange(0, 38) =~= whole);
    assert(at(s, 0, whole));
    lemma_at_split(s, 0, h, ser_number(xmin) + (ser_number(xmax) + seq![0u8]));
    lemma_at_split(s, 21, ser_number(xmin), ser_number(xmax) + seq![0u8]);
    lemma_at_split(s, 29, ser_number(xmax), seq![0u8]);
    lemma_at_split(s, 0, magic, seq![8u8] + class);
    lemma_at_split(s, 12, seq![8u8], class);
    assert(s.subrange(12, 13)[0] == s[12]);
    assert(s.subrange(37, 38)[0] == s[37]);
    assert(des_header(s) == Ok::<int, DeserializeErrorModel>(21));
    lemma_des_number(s, 21, xmin);
    lemma_des_number(s, 29, xmax);
}

} // verus!
