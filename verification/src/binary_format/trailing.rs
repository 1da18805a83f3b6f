//! Reading the binary format never looks past the TextGrid it reads: bytes
//! after it change nothing.
use vstd::prelude::*;

use crate::binary_format::deserializer::{
    des_ascii_string, des_bool, des_bytes, des_header, des_i16, des_i32, des_i8, des_interval,
    des_intervals, des_number, des_point, des_points, des_string, des_tier, des_tier_kind,
    des_tiers, des_utf16_string, spec_deserialize, DesResult,
};
use crate::model::TextGridTierKind;

verus! {

/// A reading from `pos` that succeeded, ending within the input.
pub open spec fn read_within<T>(r: DesResult<T>, pos: int, len: nat) -> bool {
    r matches Ok((_, p)) && pos <= p <= len
}

proof fn lemma_prefix(input: Seq<u8>, x: Seq<u8>)
    ensures
        forall|k: int| 0 <= k < input.len() ==> (input + x)[k] == input[k],
        forall|a: int, b: int|
            0 <= a <= b <= input.len() ==> #[trigger] (input + x).subrange(a, b) == input.subrange(
                a,
                b,
            ),
{
    assert forall|a: int, b: int| 0 <= a <= b <= input.len() implies #[trigger] (input
        + x).subrange(a, b) == input.subrange(a, b) by {
        assert((input + x).subrange(a, b) =~= input.subrange(a, b));
    }
}

proof fn lemma_fixed(input: Seq<u8>, x: Seq<u8>, pos: int)
    requires
        0 <= pos,
    ensures
        des_bool(input, pos) is Ok ==> des_bool(input + x, pos) == des_bool(input, pos)
            && read_within(des_bool(input, pos), pos, input.len()),
        des_i8(input, pos) is Ok ==> des_i8(input + x, pos) == des_i8(input, pos) && read_within(
            des_i8(input, pos),
            pos,
            input.len(),
        ),
        des_i16(input, pos) is Ok ==> des_i16(input + x, pos) == des_i16(input, pos)
            && read_within(des_i16(input, pos), pos, input.len()),
        des_i32(input, pos) is Ok ==> des_i32(input + x, pos) == des_i32(input, pos)
            && read_within(des_i32(input, pos), pos, input.len()),
        des_number(input, pos) is Ok ==> des_number(input + x, pos) == des_number(input, pos)
            && read_within(des_number(input, pos), pos, input.len()),
{
    lemma_prefix(input, x);
}

proof fn lemma_bytes(input: Seq<u8>, x: Seq<u8>, pos: int, size: nat)
    requires
        0 <= pos,
    ensures
        des_bytes(input, pos, size) is Ok ==> des_bytes(input + x, pos, size) == des_bytes(
            input,
            pos,
            size,
        ) && read_within(des_bytes(input, pos, size), pos, input.len()),
        des_ascii_string(input, pos, size) is Ok ==> des_ascii_string(input + x, pos, size)
            == des_ascii_string(input, pos, size) && read_within(
            des_ascii_string(input, pos, size),
            pos,
            input.len(),
        ),
        des_utf16_string(input, pos, size) is Ok ==> des_utf16_string(input + x, pos, size)
            == des_utf16_string(input, pos, size) && read_within(
            des_utf16_string(input, pos, size),
            pos,
            input.len(),
        ),
{
    lemma_prefix(input, x);
}

proof fn lemma_string(input: Seq<u8>, x: Seq<u8>, pos: int)
    requires
        0 <= pos,
        des_string(input, pos) is Ok,
    ensures
        des_string(input + x, pos) == des_string(input, pos),
        read_within(des_string(input, pos), pos, input.len()),
{
    lemma_fixed(input, x, pos);
    let p = des_i16(input, pos)->Ok_0.1;
    let len = des_i16(input, pos)->Ok_0.0;
    if len >= 0 {
        lemma_bytes(input, x, p, len as nat);
    } else {
        lemma_fixed(input, x, p);
        let q = des_i16(input, p)->Ok_0.1;
        let n = des_i16(input, p)->Ok_0.0;
        lemma_bytes(input, x, q, n as nat);
    }
}

proof fn lemma_tier_kind(input: Seq<u8>, x: Seq<u8>, pos: int)
    requires
        0 <= pos,
        des_tier_kind(input, pos) is Ok,
    ensures
        des_tier_kind(input + x, pos) == des_tier_kind(input, pos),
        read_within(des_tier_kind(input, pos), pos, input.len()),
{
    lemma_fixed(input, x, pos);
    let (k, p) = des_i8(input, pos)->Ok_0;
    lemma_bytes(input, x, p, (k as usize) as nat);
}

proof fn lemma_interval(input: Seq<u8>, x: Seq<u8>, pos: int)
    requires
        0 <= pos,
        des_interval(input, pos) is Ok,
    ensures
        des_interval(input + x, pos) == des_interval(input, pos),
        read_within(des_interval(input, pos), pos, input.len()),
{
    lemma_fixed(input, x, pos);
    let p1 = des_number(input, pos)->Ok_0.1;
    lemma_fixed(input, x, p1);
    let p2 = des_number(input, p1)->Ok_0.1;
    lemma_string(input, x, p2);
}

proof fn lemma_point(input: Seq<u8>, x: Seq<u8>, pos: int)
    requires
        0 <= pos,
        des_point(input, pos) is Ok,
    ensures
        des_point(input + x, pos) == des_point(input, pos),
        read_within(des_point(input, pos), pos, input.len()),
{
    lemma_fixed(input, x, pos);
    let p1 = des_number(input, pos)->Ok_0.1;
    lemma_string(input, x, p1);
}

proof fn lemma_intervals(input: Seq<u8>, x: Seq<u8>, pos: int, n: nat)
    requires
        0 <= pos <= input.len(),
        des_intervals(input, pos, n) is Ok,
    ensures
        des_intervals(input + x, pos, n) == des_intervals(input, pos, n),
        read_within(des_intervals(input, pos, n), pos, input.len()),
    decreases n,
{
    if n > 0 {
        lemma_interval(input, x, pos);
        let p = des_interval(input, pos)->Ok_0.1;
        lemma_intervals(input, x, p, (n - 1) as nat);
    }
}

proof fn lemma_points(input: Seq<u8>, x: Seq<u8>, pos: int, n: nat)
    requires
        0 <= pos <= input.len(),
        des_points(input, pos, n) is Ok,
    ensures
        des_points(input + x, pos, n) == des_points(input, pos, n),
        read_within(des_points(input, pos, n), pos, input.len()),
    decreases n,
{
    if n > 0 {
        lemma_point(input, x, pos);
        let p = des_point(input, pos)->Ok_0.1;
        lemma_points(input, x, p, (n - 1) as nat);
    }
}

proof fn lemma_tier(input: Seq<u8>, x: Seq<u8>, pos: int)
    requires
        0 <= pos <= input.len(),
        des_tier(input, pos) is Ok,
    ensures
        des_tier(input + x, pos) == des_tier(input, pos),
        read_within(des_tier(input, pos), pos, input.len()),
{
    lemma_tier_kind(input, x, pos);
    let (kind, p1) = des_tier_kind(input, pos)->Ok_0;
    lemma_string(input, x, p1);
    let (name, p2) = des_string(input, p1)->Ok_0;
    lemma_fixed(input, x, p2);
    let (xmin, p3) = des_number(input, p2)->Ok_0;
    lemma_fixed(input, x, p3);
    let (xmax, p4) = des_number(input, p3)->Ok_0;
    lemma_fixed(input, x, p4);
    let (n, p5) = des_i32(input, p4)->Ok_0;
    match kind {
        TextGridTierKind::IntervalTier => lemma_intervals(input, x, p5, n as nat),
        TextGridTierKind::TextTier => lemma_points(input, x, p5, n as nat),
    }
}

proof fn lemma_tiers(input: Seq<u8>, x: Seq<u8>, pos: int, n: nat)
    requires
        0 <= pos <= input.len(),
        des_tiers(input, pos, n) is Ok,
    ensures
        des_tiers(input + x, pos, n) == des_tiers(input, pos, n),
        read_within(des_tiers(input, pos, n), pos, input.len()),
    decreases n,
{
    if n > 0 {
        lemma_tier(input, x, pos);
        let p = des_tier(input, pos)->Ok_0.1;
        lemma_tiers(input, x, p, (n - 1) as nat);
    }
}

proof fn lemma_header(input: Seq<u8>, x: Seq<u8>)
    requires
        des_header(input) is Ok,
    ensures
        des_header(input + x) == des_header(input),
        0 <= des_header(input)->Ok_0 <= input.len(),
{
    lemma_prefix(input, x);
}

/// Bytes after a TextGrid that reading succeeded on change nothing: the
/// input followed by any bytes reads as the same TextGrid.
pub proof fn law_trailing_bytes_ignored(input: Seq<u8>, extra: Seq<u8>)
    requires
        spec_deserialize(input) is Ok,
    ensures
        spec_deserialize(input + extra) == spec_deserialize(input),
{
    lemma_header(input, extra);
    let p0 = des_header(input)->Ok_0;
    lemma_fixed(input, extra, p0);
    let p1 = des_number(input, p0)->Ok_0.1;
    lemma_fixed(input, extra, p1);
    let p2 = des_number(input, p1)->Ok_0.1;
    lemma_fixed(input, extra, p2);
    let (exists, p3) = des_bool(input, p2)->Ok_0;
    if exists {
        lemma_fixed(input, extra, p3);
        let (n, p4) = des_i32(input, p3)->Ok_0;
        if n >= 0 {
            lemma_tiers(input, extra, p4, n as nat);
        }
    }
}

} // verus!
