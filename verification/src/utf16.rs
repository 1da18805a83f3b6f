//! UTF-16 encoding and decoding of character sequences.
use vstd::prelude::*;
use vstd::utf8::{char_is_scalar, char_u32_cast};

verus! {

broadcast use {char_is_scalar, char_u32_cast};

/// The UTF-16 code units of one character: one unit below U+10000, a
/// surrogate pair above.
pub open spec fn char_units(c: char) -> Seq<u16> {
    let v = c as u32;
    if v < 0x10000 {
        seq![v as u16]
    } else {
        let w = v - 0x10000;
        seq![(0xD800 + w / 0x400) as u16, (0xDC00 + w % 0x400) as u16]
    }
}

/// The UTF-16 encoding of a character sequence (as `str::encode_utf16` yields it).
pub open spec fn encode_utf16(s: Seq<char>) -> Seq<u16>
    decreases s.len(),
{
    if s.len() == 0 {
        seq![]
    } else {
        char_units(s[0]) + encode_utf16(s.drop_first())
    }
}

/// Whether a code unit is a high (leading) surrogate.
pub open spec fn is_high_surrogate(u: u16) -> bool {
    0xD800 <= u < 0xDC00
}

/// Whether a code unit is a low (trailing) surrogate.
pub open spec fn is_low_surrogate(u: u16) -> bool {
    0xDC00 <= u < 0xE000
}

/// The scalar value that a surrogate pair stands for.
pub open spec fn pair_value(hi: u16, lo: u16) -> u32 {
    (0x10000 + (hi - 0xD800) * 0x400 + (lo - 0xDC00)) as u32
}

/// The characters that a sequence of UTF-16 code units decodes to, or `None`
/// where a surrogate is unpaired (as `String::from_utf16` decides).
pub open spec fn decode_utf16(u: Seq<u16>) -> Option<Seq<char>>
    decreases u.len(),
{
    if u.len() == 0 {
        Some(seq![])
    } else if !is_high_surrogate(u[0]) && !is_low_surrogate(u[0]) {
        match decode_utf16(u.drop_first()) {
            Some(rest) => Some(seq![((u[0] as u32) as char)] + rest),
            None => None,
        }
    } else if is_high_surrogate(u[0]) && u.len() >= 2 && is_low_surrogate(u[1]) {
        match decode_utf16(u.subrange(2, u.len() as int)) {
            Some(rest) => Some(seq![(pair_value(u[0], u[1]) as char)] + rest),
            None => None,
        }
    } else {
        None
    }
}

/// `std::string::FromUtf16Error`: why code units are not UTF-16.
#[verifier::external_type_specification]
#[verifier::external_body]
pub struct ExFromUtf16Error(std::string::FromUtf16Error);

/// `String::from_utf16`: the string that the code units encode exactly when
/// they are valid UTF-16 (no unpaired surrogate); what the error holds is
/// not stated.
#[verifier::external_body]
pub(crate) fn string_from_utf16(units: &[u16]) -> (r: Result<String, std::string::FromUtf16Error>)
    ensures
        r is Ok <==> decode_utf16(units@) is Some,
        r matches Ok(s) ==> Some(s@) == decode_utf16(units@),
{
    String::from_utf16(units)
}

/// Appends the UTF-16 encoding of the given characters to `out`.
pub fn push_utf16(out: &mut Vec<u16>, cs: &[char])
    ensures
        final(out)@ == old(out)@ + encode_utf16(cs@),
{
    let mut i: usize = 0;
    let n = cs.len();
    assert(cs@.subrange(0, n as int) =~= cs@);
    while i < n
        invariant
            n == cs@.len(),
            i <= n,
            old(out)@ + encode_utf16(cs@) == out@ + encode_utf16(cs@.subrange(i as int, n as int)),
        decreases n - i,
    {
        let ghost tail = cs@.subrange(i as int, n as int);
        assert(tail.drop_first() =~= cs@.subrange(i + 1, n as int));
        let c = cs[i];
        proof {
            char_is_scalar(c);
        }
        let v = c as u32;
        let ghost before = out@;
        if v < 0x10000 {
            out.push(v as u16);
        } else {
            let w = v - 0x10000;
            assert(w / 0x400 < 0x400) by (nonlinear_arith)
                requires
                    w < 0x100000,
            ;
            out.push((0xD800 + w / 0x400) as u16);
            out.push((0xDC00 + w % 0x400) as u16);
        }
        assert(out@ =~= before + char_units(c));
        i = i + 1;
        assert(before + encode_utf16(tail) =~= out@ + encode_utf16(cs@.subrange(i as int, n as int)));
    }
    assert(cs@.subrange(n as int, n as int) =~= Seq::<char>::empty());
    assert(out@ + Seq::<u16>::empty() =~= out@);
}

/// Decoding the UTF-16 encoding of a character sequence gives that sequence back.
pub proof fn lemma_decode_encode_utf16(s: Seq<char>)
    ensures
        decode_utf16(encode_utf16(s)) == Some(s),
    decreases s.len(),
{
    if s.len() > 0 {
        let c = s[0];
        char_is_scalar(c);
        let v = c as u32;
        char_u32_cast(c, v);
        let rest = s.drop_first();
        lemma_decode_encode_utf16(rest);
        let e = encode_utf16(s);
        if v < 0x10000 {
            assert(!(0xD800 <= v <= 0xDFFF));
            assert(e.drop_first() =~= encode_utf16(rest));
            assert(seq![((e[0] as u32) as char)] + rest =~= s);
        } else {
            let w = v - 0x10000;
            assert(w / 0x400 < 0x400 && (w / 0x400) * 0x400 + w % 0x400 == w) by (nonlinear_arith)
                requires
                    0 <= w < 0x100000,
            ;
            assert(e.subrange(2, e.len() as int) =~= encode_utf16(rest));
            assert(pair_value(e[0], e[1]) == v);
            assert(seq![(pair_value(e[0], e[1]) as char)] + rest =~= s);
        }
    }
}

} // verus!
