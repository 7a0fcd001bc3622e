//! Key pairs on the curve secp256k1.
//!
//! A secret key is 32 bytes that spell a number from 1 to the curve's order
//! less one. Its public key is the matching curve point in compressed form:
//! one byte for the parity of `y`, then the 32 bytes of `x`. The curve
//! arithmetic is the `secp256k1` crate's; the random bytes come from a
//! generator of the `rand` crate that is seeded once from the operating
//! system.

use crate::error::WalletError;
use crate::numerals::be_value;
use rand::rngs::{OsRng, StdRng};
use rand::SeedableRng;
use secp256k1::{PublicKey, Secp256k1, SecretKey};
use vstd::prelude::*;

verus! {

/// The generator that secret keys are drawn from.
#[verifier::external_type_specification]
#[verifier::external_body]
pub struct ExStdRng(rand::rngs::StdRng);

/// The error with which the operating system's random source fails.
#[verifier::external_type_specification]
#[verifier::external_body]
pub struct ExRandError(rand::Error);

/// The order of the curve's group of points.
pub open spec fn curve_order() -> nat {
    0xffff_ffff_ffff_ffff_ffff_ffff_ffff_fffe_baae_dce6_af48_a03b_bfd2_5e8c_d036_4141nat
}

/// Whether `bytes` are a secret key: 32 bytes that spell, first byte most
/// significant, a number that is not zero and is below the curve's order.
pub open spec fn is_secret_key(bytes: Seq<u8>) -> bool {
    bytes.len() == 32 && 0 < be_value(bytes) < curve_order()
}

/// The compressed public key of the secret key `secret`: the curve's base
/// point multiplied by the number that `secret` spells, written as one byte
/// for the parity of `y` and the 32 bytes of `x`.
pub uninterp spec fn compressed_public_key(secret: Seq<u8>) -> [u8; 33];

/// Seeds a generator from the operating system with
/// `StdRng::from_rng(OsRng)`.
///
/// Nothing is claimed of the outcome. The call fails when the operating
/// system's source cannot be read.
#[verifier::external_body]
fn seeded_generator() -> (generator: Result<StdRng, rand::Error>) {
    StdRng::from_rng(OsRng)
}

/// Draws a secret key with `SecretKey::new` and returns its bytes.
///
/// Not proved: that the bytes are a secret key. The crate draws 32 bytes
/// again and again until they pass the test that `SecretKey::from_slice`
/// applies.
#[verifier::external_body]
fn draw_secret(generator: &mut StdRng) -> (secret: [u8; 32])
    ensures
        is_secret_key(secret@),
{
    SecretKey::new(generator).secret_bytes()
}

/// Computes the public key of `secret` with `PublicKey::from_secret_key` and
/// returns its compressed serialization; `None` where
/// `SecretKey::from_slice` refuses the bytes.
///
/// Not proved: that `SecretKey::from_slice` accepts exactly the secret keys,
/// and that the public key is the one named [`compressed_public_key`], that
/// is, that it depends on the bytes of `secret` and on nothing else.
#[verifier::external_body]
fn public_key_bytes(secret: &[u8; 32]) -> (public: Option<[u8; 33]>)
    ensures
        public is Some <==> is_secret_key(secret@),
        public matches Some(key) ==> key == compressed_public_key(secret@),
{
    match SecretKey::from_slice(secret) {
        Ok(key) => Some(PublicKey::from_secret_key(&Secp256k1::new(), &key).serialize()),
        Err(_) => None,
    }
}

/// A secret key and the public key that belongs to it.
pub struct KeyPair {
    secret: [u8; 32],
    public: [u8; 33],
}

impl KeyPair {
    /// The bytes of the secret key.
    pub closed spec fn secret_bytes(&self) -> Seq<u8> {
        self.secret@
    }

    /// The bytes of the compressed public key.
    pub closed spec fn public_bytes(&self) -> Seq<u8> {
        self.public@
    }

    /// The secret key is a secret key, and the public key is the one that
    /// belongs to it.
    #[verifier::type_invariant]
    pub open spec fn matched(&self) -> bool {
        is_secret_key(self.secret_bytes()) && self.public_bytes() == compressed_public_key(
            self.secret_bytes(),
        )@
    }

    /// The key pair of a given secret key; `None` where the bytes are no
    /// secret key.
    pub fn from_secret(secret: [u8; 32]) -> (pair: Option<KeyPair>)
        ensures
            pair is Some <==> is_secret_key(secret@),
            pair matches Some(keys) ==> keys.matched() && keys.secret_bytes() == secret@,
    {
        match public_key_bytes(&secret) {
            Some(public) => Some(KeyPair { secret, public }),
            None => None,
        }
    }

    /// Generates a key pair from fresh randomness.
    ///
    /// Fails only where the operating system's random source cannot be read.
    pub fn generate() -> (outcome: Result<KeyPair, WalletError>)
        ensures
            outcome matches Ok(keys) ==> keys.matched(),
            outcome matches Err(e) ==> e == WalletError::EntropyUnavailable,
    {
        KeyPair::generate_with(seeded_generator())
    }

    /// Generates a key pair from the outcome of seeding a generator: a pair
    /// drawn from the generator where seeding succeeded, and
    /// [`WalletError::EntropyUnavailable`] where it failed.
    pub fn generate_with(seeding: Result<StdRng, rand::Error>) -> (outcome: Result<
        KeyPair,
        WalletError,
    >)
        ensures
            match seeding {
                Ok(_) => outcome matches Ok(keys) && keys.matched(),
                Err(_) => outcome matches Err(e) && e == WalletError::EntropyUnavailable,
            },
    {
        match seeding {
            Ok(mut generator) => {
                let secret = draw_secret(&mut generator);
                let pair = KeyPair::from_secret(secret);
                Ok(pair.unwrap())
            },
            Err(_) => Err(WalletError::EntropyUnavailable),
        }
    }

    /// The secret key.
    pub fn secret(&self) -> (bytes: &[u8; 32])
        ensures
            bytes@ == self.secret_bytes(),
    {
        &self.secret
    }

    /// The compressed public key.
    pub fn public(&self) -> (bytes: &[u8; 33])
        ensures
            bytes@ == self.public_bytes(),
            self.matched(),
    {
        proof {
            use_type_invariant(self);
        }
        &self.public
    }
}

} // verus!
