//! Fast fingerprinting for large byte sources.
//!
//! Instead of mixing every byte, the hasher mixes a fixed budget of sampled
//! bytes (head, middle, tail) plus the exact byte length, falling back to a
//! full read for small inputs.  The mixing itself is the 128-bit x64 murmur3
//! primitive; the final fingerprint folds the input's byte length into the
//! mix result as a little-endian base-128 varint.

use vstd::prelude::*;

pub mod codec;
pub mod laws;
pub mod mix;
pub mod varint;

verus! {

use vstd::slice::{slice_subrange, slice_to_vec};

/// Default minimum input length, in bytes, before sampling replaces a full read.
pub const SAMPLE_THRESHOLD: u32 = 128 * 1024;

/// Default number of bytes taken from each of the three sampled zones.
pub const SAMPLE_SIZE: u32 = 16 * 1024;

/// A hasher which holds the custom sample parameters, and provides the APIs.
#[derive(Copy, Clone, Debug, PartialEq, Eq, Structural)]
pub struct Hasher {
    pub sample_threshold: u32,
    pub sample_size: u32,
}

/// The sampling policy: a sample is taken only when the configuration allows
/// sampling at all (`sample_size >= 1`), the input reaches the configured
/// threshold, and the input holds at least four samples' worth of bytes, so
/// that the three sampled zones never overlap.
pub open spec fn spec_should_sample(h: Hasher, size: nat) -> bool {
    &&& h.sample_size >= 1
    &&& size >= h.sample_threshold
    &&& size >= 4 * h.sample_size
}

/// The exact bytes fed to the mixing primitive: the whole input in full-read
/// mode, or first zone ++ middle zone ++ last zone when sampling applies.
pub open spec fn spec_sample_bytes(h: Hasher, data: Seq<u8>) -> Seq<u8> {
    if spec_should_sample(h, data.len()) {
        let ss = h.sample_size as int;
        let len = data.len() as int;
        data.subrange(0, ss) + data.subrange(len / 2, len / 2 + ss) + data.subrange(len - ss, len)
    } else {
        data
    }
}

/// The fingerprint of `data` under configuration `h`: the sampled (or full)
/// bytes are mixed with the 128-bit primitive, the mix value's 64-bit halves
/// are exchanged, the byte order reversed, and the varint of the byte length
/// written over the leading bytes of that layout.
pub open spec fn spec_sum(h: Hasher, data: Seq<u8>) -> u128 {
    codec::spec_fingerprint(mix::mix128_of(spec_sample_bytes(h, data)), data.len() as u64)
}

impl Hasher {
    /// Creates a new Hasher using the default sample size and sample threshhold values.
    pub fn new() -> (h: Hasher)
        ensures
            h == (Hasher { sample_threshold: SAMPLE_THRESHOLD, sample_size: SAMPLE_SIZE }),
    {
        Hasher { sample_threshold: SAMPLE_THRESHOLD, sample_size: SAMPLE_SIZE }
    }

    /// Creates a new Hasher using the provided sample size
    /// and sample threshhold values. The entire input will be hashed
    /// (i.e. no sampling), if sampleSize < 1.
    pub fn with_sample_size_and_threshold(size: u32, threshold: u32) -> (h: Hasher)
        ensures
            h == (Hasher { sample_threshold: threshold, sample_size: size }),
    {
        Hasher { sample_threshold: threshold, sample_size: size }
    }

    /// Hashs a byte slice.
    pub fn sum(&self, data: &[u8]) -> (r: Result<u128, std::io::Error>)
        ensures
            r matches Ok(v) && v == spec_sum(*self, data@),
    {
        let size: usize = data.len();
        let buffer: Vec<u8> = if self.sample_size >= 1 && size as u64
            >= self.sample_threshold as u64 && size as u64 >= 4 * (self.sample_size as u64) {
            let ss = self.sample_size as usize;
            let half = size / 2;
            assert(ss <= size / 4 && half + ss <= size);
            let mut buf = slice_to_vec(slice_subrange(data, 0, ss));
            let mut middle = slice_to_vec(slice_subrange(data, half, half + ss));
            let mut last = slice_to_vec(slice_subrange(data, size - ss, size));
            buf.append(&mut middle);
            buf.append(&mut last);
            buf
        } else {
            slice_to_vec(data)
        };
        assert(buffer@ == spec_sample_bytes(*self, data@));
        let mixed = mix::mix128(&buffer);
        Ok(codec::fingerprint(mixed, size as u64))
    }

    /// Decides the read plan for a source of `size` bytes: `None` asks for a
    /// full read, `Some((first, middle, last))` gives the absolute offsets of
    /// the three zones of `sample_size` bytes each that a sampled read takes.
    pub fn sample_offsets(&self, size: u64) -> (r: Option<(u64, u64, u64)>)
        ensures
            r is Some <==> spec_should_sample(*self, size as nat),
            r matches Some(o) ==> o.0 == 0 && o.1 == size / 2 && o.2 == size - self.sample_size,
    {
        if self.sample_size >= 1 && size >= self.sample_threshold as u64 && size >= 4 * (
        self.sample_size as u64) {
            Some((0, size / 2, size - self.sample_size as u64))
        } else {
            None
        }
    }

    /// The sampled-mode hash: mixes first ++ middle ++ last and folds in
    /// `size`, the byte length of the source the zones were read from.
    /// Handed the three zones of any input that the sampling policy accepts,
    /// it returns exactly that input's fingerprint.
    pub fn hash_sampled(&self, first: &[u8], middle: &[u8], last: &[u8], size: u64) -> (r: Result<
        u128,
        std::io::Error,
    >)
        ensures
            r matches Ok(v) && v == codec::spec_fingerprint(
                mix::mix128_of(first@ + middle@ + last@),
                size,
            ),
            forall|data: Seq<u8>|
                #![trigger spec_sum(*self, data)]
                {
                    &&& data.len() == size
                    &&& spec_should_sample(*self, data.len())
                    &&& first@ == data.subrange(0, self.sample_size as int)
                    &&& middle@ == data.subrange(
                        size as int / 2,
                        size as int / 2 + self.sample_size as int,
                    )
                    &&& last@ == data.subrange(size as int - self.sample_size as int, size as int)
                } ==> spec_sum(*self, data) == r->Ok_0,
    {
        let mut buf = slice_to_vec(first);
        let mut mid = slice_to_vec(middle);
        let mut tail = slice_to_vec(last);
        buf.append(&mut mid);
        buf.append(&mut tail);
        let mixed = mix::mix128(&buf);
        let r = codec::fingerprint(mixed, size);
        proof {
            assert forall|data: Seq<u8>|
                {
                    &&& data.len() == size
                    &&& spec_should_sample(*self, data.len())
                    &&& first@ == data.subrange(0, self.sample_size as int)
                    &&& middle@ == data.subrange(
                        size as int / 2,
                        size as int / 2 + self.sample_size as int,
                    )
                    &&& last@ == data.subrange(size as int - self.sample_size as int, size as int)
                } implies #[trigger] spec_sum(*self, data) == r by {
                assert(spec_sample_bytes(*self, data) == first@ + middle@ + last@);
            }
        }
        Ok(r)
    }
}

impl Default for Hasher {
    fn default() -> (h: Hasher)
        ensures
            h == (Hasher { sample_threshold: SAMPLE_THRESHOLD, sample_size: SAMPLE_SIZE }),
    {
        Hasher::new()
    }
}

} // verus!
