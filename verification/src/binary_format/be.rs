//! Big-endian integers.
use vstd::prelude::*;

verus! {

/// 256 to the power `n`.
pub open spec fn p256(n: nat) -> nat
    decreases n,
{
    if n == 0 {
        1
    } else {
        256 * p256((n - 1) as nat)
    }
}

/// The unsigned value of big-endian bytes.
pub open spec fn be_value(s: Seq<u8>) -> nat
    decreases s.len(),
{
    if s.len() == 0 {
        0
    } else {
        be_value(s.drop_last()) * 256 + s.last() as nat
    }
}

/// The `n` big-endian bytes of `v` (its `n` lowest base-256 digits).
pub open spec fn be_bytes(v: nat, n: nat) -> Seq<u8>
    decreases n,
{
    if n == 0 {
        seq![]
    } else {
        be_bytes(v / 256, (n - 1) as nat).push((v % 256) as u8)
    }
}

/// The signed value of an `n`-byte two's complement number.
pub open spec fn from_twos(u: nat, n: nat) -> int {
    if u >= p256(n) / 2 {
        u - p256(n)
    } else {
        u as int
    }
}

/// The `n`-byte two's complement representation of `v`.
pub open spec fn to_twos(v: int, n: nat) -> nat {
    if v < 0 {
        (v + p256(n)) as nat
    } else {
        v as nat
    }
}

pub proof fn lemma_p256_values()
    ensures
        p256(0) == 1,
        p256(1) == 256,
        p256(2) == 0x10000,
        p256(4) == 0x1_0000_0000,
        p256(7) == 0x100_0000_0000_0000,
        p256(8) == 0x1_0000_0000_0000_0000,
{
    reveal_with_fuel(p256, 9);
}

pub proof fn lemma_p256_positive(n: nat)
    ensures
        p256(n) >= 1,
    decreases n,
{
    if n > 0 {
        lemma_p256_positive((n - 1) as nat);
    }
}

pub proof fn lemma_p256_monotone(m: nat, n: nat)
    requires
        m <= n,
    ensures
        p256(m) <= p256(n),
    decreases n,
{
    if m < n {
        lemma_p256_monotone(m, (n - 1) as nat);
    }
}

/// The value of `n` bytes is below `256^n`.
pub proof fn lemma_be_value_bound(s: Seq<u8>)
    ensures
        be_value(s) < p256(s.len()),
    decreases s.len(),
{
    if s.len() > 0 {
        lemma_be_value_bound(s.drop_last());
        let a = be_value(s.drop_last());
        let b = s.last() as nat;
        let p = p256((s.len() - 1) as nat);
        assert(a * 256 + b < 256 * p) by (nonlinear_arith)
            requires
                a < p,
                b < 256,
        ;
    }
}

/// Reading back the bytes of a value that fits in `n` bytes gives the value.
pub proof fn lemma_be_round_trip(v: nat, n: nat)
    requires
        v < p256(n),
    ensures
        be_bytes(v, n).len() == n,
        be_value(be_bytes(v, n)) == v,
    decreases n,
{
    if n > 0 {
        let p = p256((n - 1) as nat);
        assert(v / 256 < p && (v / 256) * 256 + v % 256 == v) by (nonlinear_arith)
            requires
                v < 256 * p,
        ;
        lemma_be_round_trip(v / 256, (n - 1) as nat);
        let s = be_bytes(v, n);
        assert(s.drop_last() =~= be_bytes(v / 256, (n - 1) as nat));
    }
}

/// Writing the value of some bytes gives those bytes back.
pub proof fn lemma_be_bytes_of_value(s: Seq<u8>)
    ensures
        be_bytes(be_value(s), s.len()) == s,
    decreases s.len(),
{
    if s.len() > 0 {
        let a = be_value(s.drop_last());
        let b = s.last() as nat;
        assert((a * 256 + b) / 256 == a && (a * 256 + b) % 256 == b) by (nonlinear_arith)
            requires
                b < 256,
        ;
        lemma_be_bytes_of_value(s.drop_last());
        assert(be_bytes(be_value(s), s.len()) =~= s);
    }
}

/// Reads `n` big-endian bytes at `pos` as an unsigned number.
pub fn read_be(input: &[u8], pos: usize, n: usize) -> (r: u64)
    requires
        n <= 8,
        pos + n <= input@.len(),
    ensures
        r as nat == be_value(input@.subrange(pos as int, pos + n)),
{
    let mut acc: u64 = 0;
    let mut i: usize = 0;
    let len = input.len();
    proof {
        lemma_p256_values();
    }
    while i < n
        invariant
            len == input@.len(),
            n <= 8,
            pos + n <= input@.len(),
            i <= n,
            acc as nat == be_value(input@.subrange(pos as int, pos + i)),
        decreases n - i,
    {
        let ghost s = input@.subrange(pos as int, pos + i + 1);
        assert(s.drop_last() =~= input@.subrange(pos as int, pos + i));
        proof {
            lemma_be_value_bound(input@.subrange(pos as int, pos + i));
            lemma_p256_monotone(i as nat, 7);
            lemma_p256_values();
        }
        let b = input[pos + i];
        assert(acc * 256 + b < 0x1_0000_0000_0000_0000) by (nonlinear_arith)
            requires
                acc < 0x100_0000_0000_0000,
                b < 256,
        ;
        acc = acc * 256 + b as u64;
        i = i + 1;
    }
    acc
}

/// Appends the `n` big-endian bytes of `v`.
pub fn push_be(out: &mut Vec<u8>, v: u64, n: usize)
    requires
        n <= 8,
    ensures
        final(out)@ == old(out)@ + be_bytes(v as nat, n as nat),
    decreases n,
{
    if n > 0 {
        push_be(out, v / 256, n - 1);
        out.push((v % 256) as u8);
        assert(final(out)@ =~= old(out)@ + be_bytes(v as nat, n as nat));
    } else {
        assert(out@ =~= old(out)@ + be_bytes(v as nat, n as nat));
    }
}

} // verus!
