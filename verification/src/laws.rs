//! Properties of the fingerprint that hold for every input, proved once and
//! for all: determinism, length sensitivity, the full-read boundary, the
//! equivalence of the default and the explicitly-configured hasher, and the
//! irrelevance of bytes between the sampled zones.

use vstd::prelude::*;
use crate::{Hasher, spec_should_sample, spec_sample_bytes, spec_sum, SAMPLE_SIZE, SAMPLE_THRESHOLD};
use crate::codec;
use crate::varint;

verus! {

/// Determinism: the fingerprint is a function of the configuration and the
/// input bytes alone, so two results computed from the same pair are equal.
pub proof fn lemma_sum_deterministic(h: Hasher, data: Seq<u8>, r1: u128, r2: u128)
    requires
        r1 == spec_sum(h, data),
        r2 == spec_sum(h, data),
    ensures
        r1 == r2,
{
}

/// The raw mix value that `spec_sum` post-processes; named so the proofs
/// below can speak of it once.
pub open spec fn mix_of_input(h: Hasher, data: Seq<u8>) -> u128 {
    crate::mix::mix128_of(spec_sample_bytes(h, data))
}

/// Length sensitivity: two inputs of different byte lengths never share a
/// fingerprint, whatever their bytes and whatever the two configurations,
/// because the varint of the length overwrites the leading fingerprint bytes
/// and varints form a prefix code.
pub proof fn lemma_length_sensitive(h1: Hasher, h2: Hasher, d1: Seq<u8>, d2: Seq<u8>)
    requires
        d1.len() != d2.len(),
        d1.len() <= u64::MAX,
        d2.len() <= u64::MAX,
    ensures
        spec_sum(h1, d1) != spec_sum(h2, d2),
{
    let n1 = d1.len() as u64;
    let n2 = d2.len() as u64;
    let m1 = mix_of_input(h1, d1);
    let m2 = mix_of_input(h2, d2);
    let b1 = codec::spec_fingerprint_bytes(m1, n1);
    let b2 = codec::spec_fingerprint_bytes(m2, n2);
    varint::lemma_uvarint_len_u64(n1);
    varint::lemma_uvarint_len_u64(n2);
    assert(b1.len() == 16 && b2.len() == 16);
    if spec_sum(h1, d1) == spec_sum(h2, d2) {
        codec::lemma_le_value_bound(b1);
        codec::lemma_le_value_bound(b2);
        codec::lemma_pow2_128();
        assert(codec::spec_le_value(b1) == codec::spec_le_value(b2));
        codec::lemma_le_value_injective(b1, b2);
        varint::lemma_uvarint_prefix(
            n1 as nat,
            n2 as nat,
            codec::spec_mix_layout(m1).skip(varint::spec_uvarint(n1 as nat).len() as int),
            codec::spec_mix_layout(m2).skip(varint::spec_uvarint(n2 as nat).len() as int),
        );
        assert(false);
    }
}

/// Mode boundary: an input below the sampling threshold, or shorter than
/// four samples' worth of bytes, hashes exactly as it does under a hasher
/// with `sample_size == 0`, which never samples at all.
pub proof fn lemma_mode_boundary(h: Hasher, data: Seq<u8>)
    requires
        data.len() < h.sample_threshold || data.len() < 4 * h.sample_size,
    ensures
        spec_sum(h, data) == spec_sum(
            Hasher { sample_threshold: h.sample_threshold, sample_size: 0 },
            data,
        ),
{
    let z = Hasher { sample_threshold: h.sample_threshold, sample_size: 0 };
    assert(!spec_should_sample(h, data.len()));
    assert(!spec_should_sample(z, data.len()));
}

/// Default-vs-custom equivalence: a hasher built with the default sample
/// size and threshold spelled out fingerprints every input exactly as the
/// default hasher does.
pub proof fn lemma_default_custom_equiv(h1: Hasher, h2: Hasher, data: Seq<u8>)
    requires
        h1 == (Hasher { sample_threshold: SAMPLE_THRESHOLD, sample_size: SAMPLE_SIZE }),
        h2 == (Hasher { sample_threshold: 131072u32, sample_size: 16384u32 }),
    ensures
        spec_sum(h1, data) == spec_sum(h2, data),
{
}

/// The point of the four-samples guard: whenever the policy samples, the
/// first zone ends before the middle zone starts, and the middle zone ends
/// before the last zone starts, so no byte is ever mixed twice.
pub proof fn lemma_zones_disjoint(h: Hasher, size: nat)
    requires
        spec_should_sample(h, size),
    ensures
        h.sample_size <= size / 2,
        size / 2 + h.sample_size <= size - h.sample_size,
{
}

/// Gap insensitivity: in sampled mode the fingerprint depends only on the
/// three sampled zones and the byte length; two inputs of the same length
/// that agree on the zones hash alike, however the bytes between the zones
/// differ.
pub proof fn lemma_gap_insensitive(h: Hasher, d1: Seq<u8>, d2: Seq<u8>)
    requires
        d1.len() == d2.len(),
        spec_should_sample(h, d1.len()),
        d1.subrange(0, h.sample_size as int) == d2.subrange(0, h.sample_size as int),
        d1.subrange(d1.len() as int / 2, d1.len() as int / 2 + h.sample_size as int)
            == d2.subrange(d2.len() as int / 2, d2.len() as int / 2 + h.sample_size as int),
        d1.subrange(d1.len() - h.sample_size as int, d1.len() as int) == d2.subrange(
            d2.len() - h.sample_size as int,
            d2.len() as int,
        ),
    ensures
        spec_sum(h, d1) == spec_sum(h, d2),
{
    assert(spec_sample_bytes(h, d1) == spec_sample_bytes(h, d2));
}

} // verus!
