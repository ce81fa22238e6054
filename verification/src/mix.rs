//! The external 128-bit mixing primitive, behind a trusted wrapper.

use vstd::prelude::*;

verus! {

/// I/O errors surface the standard library's error type, so it is declared
/// here for signatures; nothing is assumed about its contents.
#[verifier::external_type_specification]
#[verifier::external_body]
pub struct ExIoError(std::io::Error);

/// The 128-bit x64 murmur3 mix of `data` with seed 0.  The algorithm itself
/// is the murmur3 crate's business; the library relies only on the result
/// being a function of the bytes alone.
pub uninterp spec fn mix128_of(data: Seq<u8>) -> u128;

/// Relies on murmur3::murmur3_x64_128: the result is a deterministic
/// function of the bytes read from the source and the seed, here always
/// seed 0.  Reading from an in-memory cursor cannot fail, so the call
/// always returns `Ok`.
#[verifier::external_body]
pub(crate) fn mix128(data: &Vec<u8>) -> (r: u128)
    ensures
        r == mix128_of(data@),
{
    murmur3::murmur3_x64_128(&mut std::io::Cursor::new(data.as_slice()), 0).unwrap()
}

} // verus!
