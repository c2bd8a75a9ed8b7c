//! The hash functions: SHA-256 for address checksums, BLAKE2b-256 for what
//! is signed.

use vstd::prelude::*;

verus! {

/// The SHA-256 digest of `data`.
pub uninterp spec fn sha256_digest(data: Seq<u8>) -> Seq<u8>;

/// The unkeyed BLAKE2b digest of `data`, 32 bytes long.
pub uninterp spec fn blake2b_digest(data: Seq<u8>) -> Seq<u8>;

/// The bytes that were fed to a running hash so far, in their order.
pub uninterp spec fn absorbed(state: blake2b_simd::State) -> Seq<u8>;

/// Whether a running hash was set up for an unkeyed digest of 32 bytes,
/// with no other parameter changed.
pub uninterp spec fn unkeyed_256(state: blake2b_simd::State) -> bool;

/// A running BLAKE2b hash.
#[verifier::external_type_specification]
#[verifier::external_body]
pub struct ExBlake2bState(blake2b_simd::State);

/// Hashes `input` with SHA-256.
///
/// Trusted: this is `sha2::Sha256::digest`, which returns the SHA-256 digest
/// of its input, 32 bytes.
#[verifier::external_body]
pub(crate) fn sha256(input: &[u8]) -> (digest: [u8; 32])
    ensures
        digest@ == sha256_digest(input@),
{
    <sha2::Sha256 as sha2::Digest>::digest(input).into()
}

/// Starts a BLAKE2b-256 hash.
///
/// Trusted: this is `blake2b_simd::Params::new().hash_length(32).to_state()`,
/// a state that has taken no input yet.
#[verifier::external_body]
pub(crate) fn hasher_new() -> (state: blake2b_simd::State)
    ensures
        unkeyed_256(state),
        absorbed(state) == Seq::<u8>::empty(),
{
    blake2b_simd::Params::new().hash_length(32).to_state()
}

/// Feeds `data` to a running hash.
///
/// Trusted: this is `blake2b_simd::State::update`, which appends the input
/// to what the state has taken and leaves its parameters alone. It has no
/// failing path.
#[verifier::external_body]
pub(crate) fn hasher_update(state: &mut blake2b_simd::State, data: &[u8])
    ensures
        absorbed(*final(state)) == absorbed(*old(state)) + data@,
        unkeyed_256(*final(state)) == unkeyed_256(*old(state)),
    no_unwind
{
    state.update(data);
}

/// The digest of what a running hash has taken so far.
///
/// Trusted: this is `blake2b_simd::State::finalize`, which does not change
/// the state and returns the digest of all input taken so far, in the
/// length the state was set up with.
#[verifier::external_body]
pub(crate) fn hasher_finalize(state: &blake2b_simd::State) -> (digest: [u8; 32])
    requires
        unkeyed_256(*state),
    ensures
        digest@ == blake2b_digest(absorbed(*state)),
{
    let mut digest = [0u8; 32];
    digest.copy_from_slice(state.finalize().as_bytes());
    digest
}

} // verus!
