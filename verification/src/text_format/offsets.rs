//! Byte offsets of character positions in UTF-8 text.
use vstd::prelude::*;
use vstd::utf8::{char_is_scalar, encode_scalar, encode_utf8};

verus! {

/// The byte offset, in the UTF-8 encoding of `cs`, of the character at index `i`.
pub open spec fn byte_pos(cs: Seq<char>, i: int) -> nat {
    encode_utf8(cs.take(i)).len()
}

/// The UTF-8 encoding of a concatenation is the concatenation of the encodings.
pub proof fn lemma_encode_utf8_concat(a: Seq<char>, b: Seq<char>)
    ensures
        encode_utf8(a + b) == encode_utf8(a) + encode_utf8(b),
    decreases a.len(),
{
    if a.len() == 0 {
        assert(a + b =~= b);
        assert(encode_utf8(a) =~= Seq::<u8>::empty());
        assert(Seq::<u8>::empty() + encode_utf8(b) =~= encode_utf8(b));
    } else {
        lemma_encode_utf8_concat(a.drop_first(), b);
        assert((a + b).drop_first() =~= a.drop_first() + b);
        assert((a + b)[0] == a[0]);
        let h = encode_scalar(a[0] as u32);
        assert(h + (encode_utf8(a.drop_first()) + encode_utf8(b)) =~= (h + encode_utf8(
            a.drop_first(),
        )) + encode_utf8(b));
    }
}

/// The byte offset of the next character adds the width of this one, and
/// offsets never pass the total length.
pub proof fn lemma_byte_pos_step(cs: Seq<char>, i: int)
    requires
        0 <= i < cs.len(),
    ensures
        byte_pos(cs, i + 1) == byte_pos(cs, i) + encode_scalar(cs[i] as u32).len(),
        byte_pos(cs, i + 1) <= encode_utf8(cs).len(),
{
    assert(cs.take(i + 1) =~= cs.take(i) + seq![cs[i]]);
    lemma_encode_utf8_concat(cs.take(i), seq![cs[i]]);
    let one = seq![cs[i]];
    assert(one.drop_first() =~= Seq::<char>::empty());
    assert(encode_utf8(one.drop_first()) =~= Seq::<u8>::empty());
    assert(encode_utf8(one) == encode_scalar(one[0] as u32) + encode_utf8(one.drop_first()));
    assert(encode_utf8(one) =~= encode_scalar(cs[i] as u32));
    assert(cs =~= cs.take(i + 1) + cs.skip(i + 1));
    lemma_encode_utf8_concat(cs.take(i + 1), cs.skip(i + 1));
}

/// The number of UTF-8 bytes of a character.
pub fn utf8_width(c: char) -> (w: usize)
    ensures
        w == encode_scalar(c as u32).len(),
        1 <= w <= 4,
{
    proof {
        char_is_scalar(c);
    }
    let v = c as u32;
    if v < 0x80 {
        1
    } else if v < 0x800 {
        2
    } else if v < 0x10000 {
        3
    } else {
        4
    }
}

/// The byte offset of the character at index `i`.
pub fn byte_offset(cs: &[char], total: usize, i: usize) -> (r: usize)
    requires
        i <= cs@.len(),
        total == encode_utf8(cs@).len(),
    ensures
        r == byte_pos(cs@, i as int),
{
    let mut k: usize = 0;
    let mut acc: usize = 0;
    assert(cs@.take(0) =~= Seq::<char>::empty());
    while k < i
        invariant
            i <= cs@.len(),
            total == encode_utf8(cs@).len(),
            k <= i,
            acc == byte_pos(cs@, k as int),
        decreases i - k,
    {
        proof {
            lemma_byte_pos_step(cs@, k as int);
        }
        acc = acc + utf8_width(cs[k]);
        k = k + 1;
    }
    acc
}

} // verus!
