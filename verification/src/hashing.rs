//! The two hash functions of the address pipeline.
//!
//! Neither digest is defined here: each is a named function of the hashed
//! bytes, and the executable functions below hand the work to the `sha2` and
//! `ripemd` crates. Everything the rest of the library proves about digests
//! rests on those two functions returning what the names stand for.

use ripemd::Ripemd160;
use sha2::{Digest, Sha256};
use vstd::prelude::*;

verus! {

/// The SHA-256 digest of `data` as FIPS 180-4 defines it, always 32 bytes.
pub uninterp spec fn sha256(data: Seq<u8>) -> [u8; 32];

/// The RIPEMD-160 digest of `data` as its authors Dobbertin, Bosselaers and
/// Preneel define it, always 20 bytes.
pub uninterp spec fn ripemd160(data: Seq<u8>) -> [u8; 20];

/// Hashes `data` with `sha2::Sha256::digest`.
///
/// Not proved: that the crate's result is the digest named [`sha256`], that
/// is, that it depends on the bytes of `data` and on nothing else.
#[verifier::external_body]
pub(crate) fn sha256_digest(data: &[u8]) -> (digest: [u8; 32])
    ensures
        digest == sha256(data@),
{
    Sha256::digest(data).into()
}

/// Hashes `data` with `ripemd::Ripemd160::digest`.
///
/// Not proved: that the crate's result is the digest named [`ripemd160`],
/// that is, that it depends on the bytes of `data` and on nothing else.
#[verifier::external_body]
pub(crate) fn ripemd160_digest(data: &[u8]) -> (digest: [u8; 20])
    ensures
        digest == ripemd160(data@),
{
    Ripemd160::digest(data).into()
}

} // verus!
