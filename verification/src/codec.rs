//! Byte-layout post-processing of the raw 128-bit mix result: exchange the
//! two 64-bit halves, reverse the byte order, then overwrite the leading
//! bytes with the varint of the input's byte length.

use vstd::prelude::*;
use vstd::arithmetic::power2::{
    pow2, lemma_pow2_adds, lemma2_to64, lemma2_to64_rest, lemma_pow2_pos,
};
use vstd::arithmetic::div_mod::{
    lemma_div_denominator, lemma_fundamental_div_mod_converse_div,
    lemma_fundamental_div_mod_converse_mod,
};
use crate::varint;

verus! {

/// The value of a byte sequence read as a little-endian natural number.
pub open spec fn spec_le_value(s: Seq<u8>) -> nat
    decreases s.len(),
{
    if s.len() == 0 {
        0
    } else {
        s[0] as nat + 0x100 * spec_le_value(s.skip(1))
    }
}

/// Byte `i` of the little-endian layout of a 128-bit value.
pub open spec fn spec_u128_byte(x: u128, i: int) -> u8 {
    (((x as nat) / pow2((8 * i) as nat)) % 0x100) as u8
}

/// The 16-byte little-endian layout of a 128-bit value.
pub open spec fn spec_u128_le(x: u128) -> Seq<u8> {
    Seq::new(16, |i: int| spec_u128_byte(x, i))
}

/// `x` rotated right by 64 bits: the two 64-bit halves exchanged.
pub open spec fn spec_rot64(x: u128) -> u128 {
    (x as nat / 0x10000000000000000 + (x as nat % 0x10000000000000000)
        * 0x10000000000000000) as u128
}

/// The byte layout that the length varint is written over: the little-endian
/// bytes of the rotated mix value, in reverse order.
pub open spec fn spec_mix_layout(x: u128) -> Seq<u8> {
    spec_u128_le(spec_rot64(x)).reverse()
}

/// The final fingerprint bytes: the varint of `size` over the front of the
/// mix layout, the bytes past the varint untouched.
pub open spec fn spec_fingerprint_bytes(mix: u128, size: u64) -> Seq<u8> {
    let v = varint::spec_uvarint(size as nat);
    v + spec_mix_layout(mix).skip(v.len() as int)
}

/// The final fingerprint: its bytes read as a little-endian 128-bit value.
pub open spec fn spec_fingerprint(mix: u128, size: u64) -> u128 {
    spec_le_value(spec_fingerprint_bytes(mix, size)) as u128
}

/// A little-endian byte sequence of length `n` holds a value below
/// `pow2(8 * n)`.
pub proof fn lemma_le_value_bound(s: Seq<u8>)
    ensures
        spec_le_value(s) < pow2(8 * s.len()),
    decreases s.len(),
{
    lemma2_to64();
    if s.len() == 0 {
    } else {
        lemma_le_value_bound(s.skip(1));
        lemma_pow2_adds(8, 8 * (s.len() - 1) as nat);
        assert(spec_le_value(s) <= 0xff + 0x100 * (pow2(8 * (s.len() - 1) as nat) - 1));
    }
}

/// Equal little-endian values of equal byte length come from equal bytes.
pub proof fn lemma_le_value_injective(s: Seq<u8>, t: Seq<u8>)
    requires
        s.len() == t.len(),
        spec_le_value(s) == spec_le_value(t),
    ensures
        s == t,
    decreases s.len(),
{
    if s.len() == 0 {
        assert(s =~= t);
    } else {
        let v = spec_le_value(s) as int;
        lemma_fundamental_div_mod_converse_mod(v, 0x100, spec_le_value(s.skip(1)) as int, s[0] as int);
        lemma_fundamental_div_mod_converse_mod(v, 0x100, spec_le_value(t.skip(1)) as int, t[0] as int);
        lemma_fundamental_div_mod_converse_div(v, 0x100, spec_le_value(s.skip(1)) as int, s[0] as int);
        lemma_fundamental_div_mod_converse_div(v, 0x100, spec_le_value(t.skip(1)) as int, t[0] as int);
        lemma_le_value_injective(s.skip(1), t.skip(1));
        assert(s =~= t) by {
            assert forall|i: int| 0 <= i < s.len() implies s[i] == t[i] by {
                if i > 0 {
                    assert(s.skip(1)[i - 1] == s[i]);
                    assert(t.skip(1)[i - 1] == t[i]);
                }
            }
        }
    }
}

/// `pow2(128)` written out, for bounding 128-bit values.
pub proof fn lemma_pow2_128()
    ensures
        pow2(128) == 0x100000000000000000000000000000000,
{
    lemma2_to64_rest();
    lemma_pow2_adds(64, 64);
}

/// Exchanges the two 64-bit halves of `x`.
fn rotate_halves(x: u128) -> (r: u128)
    ensures
        r == spec_rot64(x),
{
    let high: u128 = x / 0x10000000000000000;
    let low: u128 = x % 0x10000000000000000;
    high + low * 0x10000000000000000
}

/// The 16 little-endian bytes of `x`, least significant first.
fn u128_le_bytes(x: u128) -> (v: Vec<u8>)
    ensures
        v@ == spec_u128_le(x),
{
    let mut v: Vec<u8> = Vec::new();
    let mut rem: u128 = x;
    proof {
        lemma2_to64();
    }
    for i in 0..16usize
        invariant
            v.len() == i,
            rem as nat == x as nat / pow2((8 * i) as nat),
            forall|j: int| 0 <= j < i ==> v@[j] == spec_u128_byte(x, j),
    {
        v.push((rem % 0x100) as u8);
        proof {
            lemma_pow2_pos((8 * i) as nat);
            lemma_div_denominator(x as int, pow2((8 * i) as nat) as int, 0x100);
            lemma_pow2_adds((8 * i) as nat, 8);
            lemma2_to64();
        }
        rem = rem / 0x100;
    }
    proof {
        assert(v@ =~= spec_u128_le(x));
    }
    v
}

/// Reads a byte buffer of at most 16 bytes as a little-endian 128-bit value.
fn le_bytes_value(v: &Vec<u8>) -> (r: u128)
    requires
        v.len() <= 16,
    ensures
        r as nat == spec_le_value(v@),
{
    let mut r: u128 = 0;
    let mut i: usize = v.len();
    proof {
        lemma2_to64();
        assert(v@.skip(v.len() as int) =~= Seq::<u8>::empty());
    }
    while i > 0
        invariant
            i <= v.len() <= 16,
            r as nat == spec_le_value(v@.skip(i as int)),
            r < pow2(8 * (v.len() - i) as nat),
        decreases i,
    {
        i = i - 1;
        proof {
            lemma2_to64();
            let k = (8 * (v.len() - i)) as nat;
            lemma_pow2_adds(8 * (v.len() - i - 1) as nat, 8);
            lemma_pow2_128();
            if k < 128 {
                vstd::arithmetic::power2::lemma_pow2_strictly_increases(k, 128);
            }
            assert(v@.skip(i as int)[0] == v@[i as int]);
            assert(v@.skip(i as int).skip(1) =~= v@.skip(i + 1));
        }
        r = (v[i] as u128) + 0x100 * r;
    }
    proof {
        assert(v@.skip(0) =~= v@);
    }
    r
}

/// Builds the final fingerprint from a raw 128-bit mix result and the byte
/// length of the input it came from: the mix value's 64-bit halves are
/// exchanged, the byte order of the whole value is reversed, and the varint
/// of `size` overwrites the leading bytes of that layout.
pub fn fingerprint(mix: u128, size: u64) -> (r: u128)
    ensures
        r == spec_fingerprint(mix, size),
{
    let rotated = rotate_halves(mix);
    let le = u128_le_bytes(rotated);
    let mut bytes: Vec<u8> = Vec::new();
    for i in 0..16usize
        invariant
            le@ == spec_u128_le(spec_rot64(mix)),
            bytes.len() == i,
            forall|j: int| 0 <= j < i ==> bytes@[j] == le@[15 - j],
    {
        let b = le[15 - i];
        bytes.push(b);
    }
    proof {
        assert(bytes@ =~= spec_mix_layout(mix));
        varint::lemma_uvarint_len_u64(size);
    }
    let n = varint::put_uvarint(&mut bytes, size);
    let r = le_bytes_value(&bytes);
    proof {
        assert(bytes@.len() == 16);
        lemma_le_value_bound(bytes@);
        lemma_pow2_128();
    }
    r
}

} // verus!
