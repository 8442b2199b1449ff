//! What the library takes on trust: the one-shot subkey derivation and the
//! source of random bytes, both from the `dryoc` crate, the erasure of
//! memory from the `zeroize` crate, and the comparison of two string slices
//! from the standard library. Nothing in this file is proved; each contract
//! restates what the outside code documents.

use vstd::prelude::*;
use crate::secret::{Context, MasterKey};

verus! {

/// Fewest bytes a derived subkey may have.
pub const DERIVED_KEY_BYTES_MIN: usize = 16;

/// Most bytes a derived subkey may have.
pub const DERIVED_KEY_BYTES_MAX: usize = 64;

/// The subkey of `len` bytes that `dryoc`'s
/// `classic::crypto_kdf::crypto_kdf_derive_from_key` writes for the given
/// subkey number, context and main key. It is a keyed BLAKE2b digest and
/// depends on these four values alone.
pub uninterp spec fn derived_subkey(len: nat, index: u64, context: Seq<u8>, key: Seq<u8>) -> Seq<u8>;

/// Calls `dryoc::classic::crypto_kdf::crypto_kdf_derive_from_key`.
///
/// Trusted: the call reports an error exactly when `subkey` is shorter than
/// [`DERIVED_KEY_BYTES_MIN`] or longer than [`DERIVED_KEY_BYTES_MAX`]; on
/// success `subkey` holds the derived subkey for its own length, and its
/// length never changes.
#[verifier::external_body]
pub(crate) fn derive_from_key(
    subkey: &mut [u8],
    index: u64,
    context: &Context,
    key: &MasterKey,
) -> (derived: bool)
    ensures
        final(subkey)@.len() == old(subkey)@.len(),
        derived <==> DERIVED_KEY_BYTES_MIN <= old(subkey)@.len() <= DERIVED_KEY_BYTES_MAX,
        derived ==> final(subkey)@ == derived_subkey(
            old(subkey)@.len(),
            index,
            context@,
            key@,
        ),
{
    dryoc::classic::crypto_kdf::crypto_kdf_derive_from_key(subkey, index, &context.0, &key.0).is_ok()
}

/// Calls `dryoc::rng::copy_randombytes`, which overwrites `dest` with bytes
/// from the operating system's random number generator and panics if that
/// generator fails.
///
/// Trusted: the length of `dest` does not change. Nothing is claimed of the
/// bytes themselves.
#[verifier::external_body]
pub(crate) fn fill_random(dest: &mut [u8])
    ensures
        final(dest)@.len() == old(dest)@.len(),
{
    dryoc::rng::copy_randombytes(dest)
}

/// Calls `zeroize::Zeroize::zeroize` on a byte slice, which writes a zero
/// over every byte with stores that the compiler may not remove.
///
/// Trusted: afterwards `bytes` has its old length and holds zeros only, and
/// the call does not panic.
#[verifier::external_body]
pub(crate) fn scrub(bytes: &mut [u8])
    ensures
        final(bytes)@ == Seq::new(old(bytes)@.len(), |i: int| 0u8),
    opens_invariants none
    no_unwind
{
    zeroize::Zeroize::zeroize(bytes)
}

/// `str`'s own `==`, which the standard library defines as equality of the
/// two texts.
pub assume_specification[ <str as PartialEq>::eq ](a: &str, b: &str) -> (same: bool)
    ensures
        same == (a@ == b@),
;

} // verus!
