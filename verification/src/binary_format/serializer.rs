//! Writing the binary TextGrid format.
use vstd::prelude::*;

use crate::binary_format::be::{be_bytes, lemma_p256_values, push_be, to_twos};
use crate::binary_format::{object_class_name, oo_binary_file_magic};
use crate::model::{
    ascii_bytes, kind_name_bytes, GridModel, IntervalModel, PointModel, TextGrid,
    TextGridInterval, TextGridPoint, TextGridTier, TextGridTierKind, TierModel, intervals_view,
    points_view, tiers_view, lemma_kind_names_distinct,
};
use crate::textbuf::chars_of;
use crate::utf16::{encode_utf16, push_utf16};

verus! {

/// Why a TextGrid cannot be written in the binary format: a string is longer
/// than the format allows.
#[derive(Debug, Clone, Copy, PartialEq, Eq, Structural)]
pub enum SerializeError {
    StringLengthOverflow { allowed: usize, actual: usize },
}

/// The outcome of writing a part: its bytes, or an error.
pub type SerResult = Result<Seq<u8>, SerializeError>;

/// The bytes of `a` followed by those of `b`; the first error otherwise.
pub open spec fn then(a: SerResult, b: SerResult) -> SerResult {
    match a {
        Ok(x) => match b {
            Ok(y) => Ok(x + y),
            Err(e) => Err(e),
        },
        Err(e) => Err(e),
    }
}

/// Whether every character is ASCII.
pub open spec fn ascii_text(s: Seq<char>) -> bool {
    forall|i: int| 0 <= i < s.len() ==> (s[i] as u32) < 128
}

/// The big-endian bytes of a sequence of 16-bit code units.
pub open spec fn units_bytes(u: Seq<u16>) -> Seq<u8>
    decreases u.len(),
{
    if u.len() == 0 {
        seq![]
    } else {
        be_bytes(u[0] as nat, 2) + units_bytes(u.drop_first())
    }
}

/// The largest length that a string length field holds.
pub open spec fn max_text_len() -> nat {
    0x7FFF
}

/// A string with its length: ASCII text as a 16-bit byte count and its
/// bytes; other text as -1, a 16-bit count of UTF-16 code units and the
/// big-endian code units.
pub open spec fn ser_text(s: Seq<char>) -> SerResult {
    if ascii_text(s) {
        if s.len() > max_text_len() {
            Err(SerializeError::StringLengthOverflow { allowed: 0x7FFF, actual: s.len() as usize })
        } else {
            Ok(be_bytes(s.len(), 2) + ascii_bytes(s))
        }
    } else {
        let u = encode_utf16(s);
        if u.len() > max_text_len() {
            Err(SerializeError::StringLengthOverflow { allowed: 0x7FFF, actual: u.len() as usize })
        } else {
            Ok(be_bytes(to_twos(-1, 2), 2) + be_bytes(u.len(), 2) + units_bytes(u))
        }
    }
}

/// A tier class: its name length byte and its name.
pub open spec fn ser_kind(k: TextGridTierKind) -> Seq<u8> {
    seq![kind_name_bytes(k).len() as u8] + kind_name_bytes(k)
}

/// A number: the eight big-endian bytes of its bit pattern.
pub open spec fn ser_number(v: u64) -> Seq<u8> {
    be_bytes(v as nat, 8)
}

/// A count, truncated to 32 bits as `as i32` does, in big-endian two's complement.
pub open spec fn ser_count(n: nat) -> Seq<u8> {
    be_bytes(to_twos((n as i32) as int, 4), 4)
}

/// An interval.
pub open spec fn ser_interval(i: IntervalModel<u64>) -> SerResult {
    then(Ok(ser_number(i.xmin) + ser_number(i.xmax)), ser_text(i.text))
}

/// A point.
pub open spec fn ser_point(p: PointModel<u64>) -> SerResult {
    then(Ok(ser_number(p.number)), ser_text(p.mark))
}

/// Intervals one after another.
pub open spec fn ser_intervals(s: Seq<IntervalModel<u64>>) -> SerResult
    decreases s.len(),
{
    if s.len() == 0 {
        Ok(seq![])
    } else {
        then(ser_interval(s[0]), ser_intervals(s.drop_first()))
    }
}

/// Points one after another.
pub open spec fn ser_points(s: Seq<PointModel<u64>>) -> SerResult
    decreases s.len(),
{
    if s.len() == 0 {
        Ok(seq![])
    } else {
        then(ser_point(s[0]), ser_points(s.drop_first()))
    }
}

/// A tier.
pub open spec fn ser_tier(t: TierModel<u64>) -> SerResult {
    match t {
        TierModel::Interval { name, xmin, xmax, intervals } => then(
            Ok(ser_kind(TextGridTierKind::IntervalTier)),
            then(
                ser_text(name),
                then(
                    Ok(ser_number(xmin) + ser_number(xmax) + ser_count(intervals.len())),
                    ser_intervals(intervals),
                ),
            ),
        ),
        TierModel::Text { name, xmin, xmax, points } => then(
            Ok(ser_kind(TextGridTierKind::TextTier)),
            then(
                ser_text(name),
                then(
                    Ok(ser_number(xmin) + ser_number(xmax) + ser_count(points.len())),
                    ser_points(points),
                ),
            ),
        ),
    }
}

/// Tiers one after another.
pub open spec fn ser_tiers(s: Seq<TierModel<u64>>) -> SerResult
    decreases s.len(),
{
    if s.len() == 0 {
        Ok(seq![])
    } else {
        then(ser_tier(s[0]), ser_tiers(s.drop_first()))
    }
}

/// The header of a binary TextGrid file.
pub open spec fn header_bytes() -> Seq<u8> {
    oo_binary_file_magic() + seq![object_class_name().len() as u8] + object_class_name()
}

/// The binary file of a TextGrid: the header, the time domain, the byte 1
/// (`<exists>`), the tier count and the tiers; or the first string that is
/// too long.
pub open spec fn spec_serialize(g: GridModel<u64>) -> SerResult {
    then(
        Ok(header_bytes() + ser_number(g.xmin) + ser_number(g.xmax) + seq![1u8] + ser_count(
            g.tiers.len(),
        )),
        ser_tiers(g.tiers),
    )
}

// ---------------------------------------------------------------------------
// Executable writing.

/// Whether an executable result agrees with a specified outcome, the bytes
/// having been appended to `out`.
pub open spec fn written(r: Result<(), SerializeError>, old_out: Seq<u8>, out: Seq<u8>, s: SerResult) -> bool {
    match s {
        Ok(b) => r is Ok && out == old_out + b,
        Err(e) => r == Err::<(), SerializeError>(e),
    }
}

proof fn lemma_then_written(
    r: Result<(), SerializeError>,
    o0: Seq<u8>,
    o1: Seq<u8>,
    o2: Seq<u8>,
    a: SerResult,
    b: SerResult,
)
    requires
        written(Ok(()), o0, o1, a),
        written(r, o1, o2, b),
    ensures
        written(r, o0, o2, then(a, b)),
{
    match (a, b) {
        (Ok(x), Ok(y)) => {
            assert(o2 =~= o0 + (x + y));
        },
        _ => {},
    }
}

fn push_bytes(out: &mut Vec<u8>, b: &[u8])
    ensures
        final(out)@ == old(out)@ + b@,
{
    let mut i: usize = 0;
    while i < b.len()
        invariant
            i <= b@.len(),
            out@ == old(out)@ + b@.take(i as int),
        decreases b@.len() - i,
    {
        out.push(b[i]);
        i = i + 1;
        assert(out@ =~= old(out)@ + b@.take(i as int));
    }
    assert(b@.take(b@.len() as int) =~= b@);
}

fn write_number(out: &mut Vec<u8>, v: u64)
    ensures
        final(out)@ == old(out)@ + ser_number(v),
{
    push_be(out, v, 8);
}

fn write_count(out: &mut Vec<u8>, n: usize)
    ensures
        final(out)@ == old(out)@ + ser_count(n as nat),
{
    let v: i32 = n as i32;
    let u: u64 = if v < 0 {
        (v as i64 + 0x1_0000_0000) as u64
    } else {
        v as u64
    };
    proof {
        lemma_p256_values();
    }
    assert(u as nat == to_twos(v as int, 4));
    push_be(out, u, 4);
}

fn units_to_bytes(out: &mut Vec<u8>, u: &[u16])
    ensures
        final(out)@ == old(out)@ + units_bytes(u@),
{
    let mut i: usize = 0;
    let n = u.len();
    assert(u@.subrange(0, n as int) =~= u@);
    while i < n
        invariant
            n == u@.len(),
            i <= n,
            old(out)@ + units_bytes(u@) == out@ + units_bytes(u@.subrange(i as int, n as int)),
        decreases n - i,
    {
        let ghost tail = u@.subrange(i as int, n as int);
        assert(tail.drop_first() =~= u@.subrange(i + 1, n as int));
        let ghost before = out@;
        push_be(out, u[i] as u64, 2);
        i = i + 1;
        assert(before + units_bytes(tail) =~= out@ + units_bytes(u@.subrange(i as int, n as int)));
    }
    assert(u@.subrange(n as int, n as int) =~= Seq::<u16>::empty());
    assert(out@ + Seq::<u8>::empty() =~= out@);
}

fn write_text(out: &mut Vec<u8>, text: &String) -> (r: Result<(), SerializeError>)
    ensures
        written(r, old(out)@, final(out)@, ser_text(text@)),
{
    let cs = chars_of(text.as_str());
    let mut ascii = true;
    let mut i: usize = 0;
    while i < cs.len()
        invariant
            i <= cs@.len(),
            ascii == (forall|j: int| 0 <= j < i ==> (cs@[j] as u32) < 128),
        decreases cs@.len() - i,
    {
        if cs[i] as u32 >= 128 {
            ascii = false;
        }
        i = i + 1;
    }
    proof {
        lemma_p256_values();
    }
    if ascii {
        if cs.len() > 0x7FFF {
            return Err(SerializeError::StringLengthOverflow { allowed: 0x7FFF, actual: cs.len() });
        }
        push_be(out, cs.len() as u64, 2);
        let mut j: usize = 0;
        let ghost start = out@;
        while j < cs.len()
            invariant
                j <= cs@.len(),
                out@ == start + ascii_bytes(cs@.take(j as int)),
            decreases cs@.len() - j,
        {
            out.push((cs[j] as u32) as u8);
            j = j + 1;
            assert(out@ =~= start + ascii_bytes(cs@.take(j as int)));
        }
        assert(out@ =~= old(out)@ + (be_bytes(cs@.len(), 2) + ascii_bytes(cs@)));
        Ok(())
    } else {
        let mut units: Vec<u16> = Vec::new();
        push_utf16(&mut units, cs.as_slice());
        assert(units@ =~= encode_utf16(cs@));
        if units.len() > 0x7FFF {
            return Err(SerializeError::StringLengthOverflow { allowed: 0x7FFF, actual: units.len() });
        }
        assert(to_twos(-1, 2) == 0xFFFF);
        push_be(out, 0xFFFF, 2);
        push_be(out, units.len() as u64, 2);
        units_to_bytes(out, units.as_slice());
        assert(out@ =~= old(out)@ + (be_bytes(to_twos(-1, 2), 2) + be_bytes(units@.len(), 2)
            + units_bytes(units@)));
        Ok(())
    }
}

fn write_tier_kind(out: &mut Vec<u8>, kind: TextGridTierKind) -> (r: Result<(), SerializeError>)
    ensures
        written(r, old(out)@, final(out)@, Ok(ser_kind(kind))),
{
    let bytes = kind.as_bytes();
    proof {
        lemma_kind_names_distinct();
    }
    if bytes.len() > 127 {
        return Err(SerializeError::StringLengthOverflow { allowed: 127, actual: bytes.len() });
    }
    out.push(bytes.len() as u8);
    push_bytes(out, bytes);
    assert(out@ =~= old(out)@ + ser_kind(kind));
    Ok(())
}

fn write_interval(out: &mut Vec<u8>, i: &TextGridInterval<u64>) -> (r: Result<(), SerializeError>)
    ensures
        written(r, old(out)@, final(out)@, ser_interval(i@)),
{
    let ghost o0 = out@;
    write_number(out, i.xmin);
    write_number(out, i.xmax);
    let ghost o1 = out@;
    assert(o1 =~= o0 + (ser_number(i.xmin) + ser_number(i.xmax)));
    let r = write_text(out, &i.text);
    proof {
        lemma_then_written(r, o0, o1, out@, Ok(ser_number(i.xmin) + ser_number(i.xmax)), ser_text(i.text@));
    }
    r
}

fn write_point(out: &mut Vec<u8>, p: &TextGridPoint<u64>) -> (r: Result<(), SerializeError>)
    ensures
        written(r, old(out)@, final(out)@, ser_point(p@)),
{
    let ghost o0 = out@;
    write_number(out, p.number);
    let ghost o1 = out@;
    let r = write_text(out, &p.mark);
    proof {
        lemma_then_written(r, o0, o1, out@, Ok(ser_number(p.number)), ser_text(p.mark@));
    }
    r
}

proof fn lemma_then_ok_assoc(a: Seq<u8>, b: Seq<u8>, r: SerResult)
    ensures
        then(Ok(a), then(Ok(b), r)) == then(Ok(a + b), r),
{
    match r {
        Ok(y) => {
            assert(a + (b + y) =~= (a + b) + y);
        },
        Err(_) => {},
    }
}

proof fn lemma_then_ok_empty(a: Seq<u8>)
    ensures
        then(Ok(a), Ok(Seq::<u8>::empty())) == Ok::<Seq<u8>, SerializeError>(a),
{
    assert(a + Seq::<u8>::empty() =~= a);
}

fn write_intervals(out: &mut Vec<u8>, items: &Vec<TextGridInterval<u64>>) -> (r: Result<(), SerializeError>)
    ensures
        written(r, old(out)@, final(out)@, ser_intervals(intervals_view(items@))),
{
    let n = items.len();
    let mut i: usize = 0;
    let ghost all = intervals_view(items@);
    let ghost mut done: Seq<u8> = Seq::empty();
    assert(all.subrange(0, n as int) =~= all);
    assert(out@ =~= old(out)@ + done);
    proof {
        match ser_intervals(all) {
            Ok(b) => assert(Seq::<u8>::empty() + b =~= b),
            Err(_) => {},
        }
    }
    while i < n
        invariant
            n == items@.len(),
            all == intervals_view(items@),
            i <= n,
            out@ == old(out)@ + done,
            ser_intervals(all) == then(Ok(done), ser_intervals(all.subrange(i as int, n as int))),
        decreases n - i,
    {
        let ghost tail = all.subrange(i as int, n as int);
        assert(tail.drop_first() =~= all.subrange(i + 1, n as int));
        assert(tail[0] == items@[i as int]@);
        let ghost o0 = out@;
        let r = write_interval(out, &items[i]);
        if r.is_err() {
            return r;
        }
        proof {
            let x = ser_interval(tail[0])->Ok_0;
            lemma_then_ok_assoc(done, x, ser_intervals(tail.drop_first()));
            done = done + x;
        }
        i = i + 1;
    }
    assert(all.subrange(n as int, n as int) =~= Seq::<IntervalModel<u64>>::empty());
    proof {
        lemma_then_ok_empty(done);
    }
    Ok(())
}

fn write_points(out: &mut Vec<u8>, items: &Vec<TextGridPoint<u64>>) -> (r: Result<(), SerializeError>)
    ensures
        written(r, old(out)@, final(out)@, ser_points(points_view(items@))),
{
    let n = items.len();
    let mut i: usize = 0;
    let ghost all = points_view(items@);
    let ghost mut done: Seq<u8> = Seq::empty();
    assert(all.subrange(0, n as int) =~= all);
    assert(out@ =~= old(out)@ + done);
    proof {
        match ser_points(all) {
            Ok(b) => assert(Seq::<u8>::empty() + b =~= b),
            Err(_) => {},
        }
    }
    while i < n
        invariant
            n == items@.len(),
            all == points_view(items@),
            i <= n,
            out@ == old(out)@ + done,
            ser_points(all) == then(Ok(done), ser_points(all.subrange(i as int, n as int))),
        decreases n - i,
    {
        let ghost tail = all.subrange(i as int, n as int);
        assert(tail.drop_first() =~= all.subrange(i + 1, n as int));
        assert(tail[0] == items@[i as int]@);
        let r = write_point(out, &items[i]);
        if r.is_err() {
            return r;
        }
        proof {
            let x = ser_point(tail[0])->Ok_0;
            lemma_then_ok_assoc(done, x, ser_points(tail.drop_first()));
            done = done + x;
        }
        i = i + 1;
    }
    assert(all.subrange(n as int, n as int) =~= Seq::<PointModel<u64>>::empty());
    proof {
        lemma_then_ok_empty(done);
    }
    Ok(())
}

fn write_tier(out: &mut Vec<u8>, tier: &TextGridTier<u64>) -> (r: Result<(), SerializeError>)
    ensures
        written(r, old(out)@, final(out)@, ser_tier(tier@)),
{
    let ghost o0 = out@;
    match tier {
        TextGridTier::IntervalTier(t) => {
            write_tier_kind(out, TextGridTierKind::IntervalTier)?;
            let ghost o1 = out@;
            let r = write_text(out, &t.name);
            if r.is_err() {
                return r;
            }
            let ghost o2 = out@;
            write_number(out, t.xmin);
            write_number(out, t.xmax);
            write_count(out, t.intervals.len());
            let ghost o3 = out@;
            let r = write_intervals(out, &t.intervals);
            proof {
                let c = ser_number(t.xmin) + ser_number(t.xmax) + ser_count(t.intervals@.len());
                assert(o3 =~= o2 + c);
                assert(intervals_view(t.intervals@).len() == t.intervals@.len());
                lemma_then_written(r, o2, o3, out@, Ok(c), ser_intervals(intervals_view(t.intervals@)));
                lemma_then_written(r, o1, o2, out@, ser_text(t.name@), then(Ok(c), ser_intervals(intervals_view(t.intervals@))));
                lemma_then_written(r, o0, o1, out@, Ok(ser_kind(TextGridTierKind::IntervalTier)), then(ser_text(t.name@), then(Ok(c), ser_intervals(intervals_view(t.intervals@)))));
            }
            r
        },
        TextGridTier::TextTier(t) => {
            write_tier_kind(out, TextGridTierKind::TextTier)?;
            let ghost o1 = out@;
            let r = write_text(out, &t.name);
            if r.is_err() {
                return r;
            }
            let ghost o2 = out@;
            write_number(out, t.xmin);
            write_number(out, t.xmax);
            write_count(out, t.points.len());
            let ghost o3 = out@;
            let r = write_points(out, &t.points);
            proof {
                let c = ser_number(t.xmin) + ser_number(t.xmax) + ser_count(t.points@.len());
                assert(o3 =~= o2 + c);
                assert(points_view(t.points@).len() == t.points@.len());
                lemma_then_written(r, o2, o3, out@, Ok(c), ser_points(points_view(t.points@)));
                lemma_then_written(r, o1, o2, out@, ser_text(t.name@), then(Ok(c), ser_points(points_view(t.points@))));
                lemma_then_written(r, o0, o1, out@, Ok(ser_kind(TextGridTierKind::TextTier)), then(ser_text(t.name@), then(Ok(c), ser_points(points_view(t.points@)))));
            }
            r
        },
    }
}

fn write_tiers(out: &mut Vec<u8>, items: &Vec<TextGridTier<u64>>) -> (r: Result<(), SerializeError>)
    ensures
        written(r, old(out)@, final(out)@, ser_tiers(tiers_view(items@))),
{
    let n = items.len();
    let mut i: usize = 0;
    let ghost all = tiers_view(items@);
    let ghost mut done: Seq<u8> = Seq::empty();
    assert(all.subrange(0, n as int) =~= all);
    assert(out@ =~= old(out)@ + done);
    proof {
        match ser_tiers(all) {
            Ok(b) => assert(Seq::<u8>::empty() + b =~= b),
            Err(_) => {},
        }
    }
    while i < n
        invariant
            n == items@.len(),
            all == tiers_view(items@),
            i <= n,
            out@ == old(out)@ + done,
            ser_tiers(all) == then(Ok(done), ser_tiers(all.subrange(i as int, n as int))),
        decreases n - i,
    {
        let ghost tail = all.subrange(i as int, n as int);
        assert(tail.drop_first() =~= all.subrange(i + 1, n as int));
        assert(tail[0] == items@[i as int]@);
        let r = write_tier(out, &items[i]);
        if r.is_err() {
            return r;
        }
        proof {
            let x = ser_tier(tail[0])->Ok_0;
            lemma_then_ok_assoc(done, x, ser_tiers(tail.drop_first()));
            done = done + x;
        }
        i = i + 1;
    }
    assert(all.subrange(n as int, n as int) =~= Seq::<TierModel<u64>>::empty());
    proof {
        lemma_then_ok_empty(done);
    }
    Ok(())
}

/// Writes a TextGrid in the binary format: the bytes that `spec_serialize`
/// gives, or the error that it gives.
pub fn serialize(input: &TextGrid<u64>) -> (r: Result<Vec<u8>, SerializeError>)
    ensures
        match spec_serialize(input@) {
            Ok(b) => r matches Ok(v) && v@ == b,
            Err(e) => r == Err::<Vec<u8>, SerializeError>(e),
        },
{
    let mut out: Vec<u8> = Vec::new();
    let magic = crate::binary_format::deserializer::magic_bytes();
    let class = crate::binary_format::deserializer::class_name_bytes();
    proof {
        reveal_strlit("TextGrid");
    }
    push_bytes(&mut out, magic);
    out.push(class.len() as u8);
    push_bytes(&mut out, class);
    write_number(&mut out, input.xmin);
    write_number(&mut out, input.xmax);
    out.push(1u8);
    write_count(&mut out, input.tiers.len());
    let ghost o1 = out@;
    assert(tiers_view(input.tiers@).len() == input.tiers@.len());
    assert(o1 =~= Seq::<u8>::empty() + (header_bytes() + ser_number(input.xmin) + ser_number(input.xmax)
        + seq![1u8] + ser_count(input.tiers@.len())));
    let r = write_tiers(&mut out, &input.tiers);
    proof {
        lemma_then_written(
            r,
            Seq::<u8>::empty(),
            o1,
            out@,
            Ok(header_bytes() + ser_number(input.xmin) + ser_number(input.xmax) + seq![1u8]
                + ser_count(input.tiers@.len())),
            ser_tiers(tiers_view(input.tiers@)),
        );
    }
    match r {
        Ok(()) => Ok(out),
        Err(e) => Err(e),
    }
}

} // verus!
