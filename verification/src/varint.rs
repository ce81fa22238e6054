//! Little-endian base-128 varint encoding of unsigned integers, as used to
//! fold the input's byte length into the front of a fingerprint.

use vstd::prelude::*;
use vstd::arithmetic::power2::{pow2, lemma_pow2_adds, lemma2_to64, lemma_pow2_strictly_increases};
use vstd::arithmetic::div_mod::{lemma_fundamental_div_mod, lemma_multiply_divide_lt};

verus! {

/// The little-endian base-128 varint bytes of `x`: each byte carries the next
/// seven payload bits, and the high bit is set on every byte except the last.
pub open spec fn spec_uvarint(x: nat) -> Seq<u8>
    decreases x,
{
    if x < 0x80 {
        seq![x as u8]
    } else {
        seq![(x % 0x80 + 0x80) as u8] + spec_uvarint(x / 0x80)
    }
}

/// A varint never takes more than one byte for each started run of seven
/// bits: a value below `pow2(7 * k)` is encoded in at most `k` bytes.
pub proof fn lemma_uvarint_len(x: nat, k: nat)
    requires
        k >= 1,
        x < pow2(7 * k),
    ensures
        1 <= spec_uvarint(x).len() <= k,
    decreases k,
{
    if x < 0x80 {
    } else {
        lemma2_to64();
        if k == 1 {
            assert(false);
        } else {
            lemma_pow2_adds(7 * (k - 1) as nat, 7);
            assert(pow2(7 * k) == pow2(7 * (k - 1) as nat) * 0x80);
            lemma_multiply_divide_lt(x as int, pow2(7 * (k - 1) as nat) as int, 0x80);
            lemma_uvarint_len(x / 0x80, (k - 1) as nat);
        }
    }
}

/// The byte length of any `u64`'s varint is between 1 and 10.
pub proof fn lemma_uvarint_len_u64(x: u64)
    ensures
        1 <= spec_uvarint(x as nat).len() <= 10,
{
    lemma2_to64();
    vstd::arithmetic::power2::lemma2_to64_rest();
    lemma_pow2_strictly_increases(64, 70);
    lemma_uvarint_len(x as nat, 10);
}

/// Varints form a prefix code: two byte sequences that start with the
/// varints of `a` and `b` can only be equal when `a == b`, and then the
/// trailing parts agree too.
pub proof fn lemma_uvarint_prefix(a: nat, b: nat, s: Seq<u8>, t: Seq<u8>)
    requires
        spec_uvarint(a) + s == spec_uvarint(b) + t,
    ensures
        a == b,
        s == t,
    decreases a,
{
    let ca = spec_uvarint(a) + s;
    let cb = spec_uvarint(b) + t;
    assert(ca[0] == spec_uvarint(a)[0]);
    assert(cb[0] == spec_uvarint(b)[0]);
    if a < 0x80 && b < 0x80 {
        assert(spec_uvarint(a)[0] == a as u8);
        assert(spec_uvarint(b)[0] == b as u8);
        assert(s =~= t) by {
            assert forall|i: int| 0 <= i < s.len() implies s[i] == t[i] by {
                assert(ca[i + 1] == s[i]);
                assert(cb[i + 1] == t[i]);
            }
            assert(s.len() == t.len());
        }
    } else if a < 0x80 && b >= 0x80 {
        assert(spec_uvarint(a)[0] < 0x80);
        assert(spec_uvarint(b)[0] >= 0x80);
        assert(false);
    } else if a >= 0x80 && b < 0x80 {
        assert(spec_uvarint(a)[0] >= 0x80);
        assert(spec_uvarint(b)[0] < 0x80);
        assert(false);
    } else {
        let sa = spec_uvarint(a / 0x80) + s;
        let sb = spec_uvarint(b / 0x80) + t;
        assert(sa =~= ca.skip(1));
        assert(sb =~= cb.skip(1));
        lemma_uvarint_prefix(a / 0x80, b / 0x80, s, t);
        assert(a % 0x80 + 0x80 == b % 0x80 + 0x80);
        lemma_fundamental_div_mod(a as int, 0x80);
        lemma_fundamental_div_mod(b as int, 0x80);
    }
}

/// Writes the varint of `x` over the front of `buffer`, leaving the bytes
/// past the encoding untouched, and returns the number of bytes written.
pub fn put_uvarint(buffer: &mut Vec<u8>, x: u64) -> (n: usize)
    requires
        old(buffer).len() >= spec_uvarint(x as nat).len(),
    ensures
        n == spec_uvarint(x as nat).len(),
        final(buffer).len() == old(buffer).len(),
        final(buffer)@ == spec_uvarint(x as nat) + old(buffer)@.skip(n as int),
{
    let mut i: usize = 0;
    let mut mx: u64 = x;
    proof {
        lemma_uvarint_len_u64(x);
    }
    while mx >= 0x80
        invariant
            buffer.len() == old(buffer).len(),
            i + spec_uvarint(mx as nat).len() <= buffer.len(),
            spec_uvarint(x as nat) =~= buffer@.take(i as int) + spec_uvarint(mx as nat),
            forall|j: int| i <= j < buffer.len() ==> buffer@[j] == old(buffer)@[j],
        decreases mx,
    {
        let ghost pre = buffer@;
        let ghost pmx = mx;
        let b: u8 = (mx as u8) | 0x80;
        assert(b == (pmx % 0x80 + 0x80) as u8) by (bit_vector)
            requires
                b == (pmx as u8) | 0x80,
                pmx >= 0x80,
        ;
        buffer.set(i, b);
        mx = mx >> 7;
        assert(mx == pmx / 0x80) by (bit_vector)
            requires
                mx == pmx >> 7,
        ;
        i = i + 1;
        proof {
            assert(spec_uvarint(pmx as nat) =~= seq![b] + spec_uvarint(mx as nat));
            assert(buffer@.take(i as int) =~= pre.take(i - 1) + seq![b]);
            assert(spec_uvarint(x as nat) =~= buffer@.take(i as int) + spec_uvarint(mx as nat));
        }
    }
    let ghost pre = buffer@;
    buffer.set(i, mx as u8);
    proof {
        assert(spec_uvarint(mx as nat) =~= seq![mx as u8]);
        assert(buffer@.take(i + 1) =~= pre.take(i as int) + seq![mx as u8]);
        assert(buffer@ =~= spec_uvarint(x as nat) + old(buffer)@.skip(i + 1));
    }
    i + 1
}

} // verus!
