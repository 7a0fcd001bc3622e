//! From a compressed public key to its address.
//!
//! The address is the base-58 text of 25 bytes: a version byte, the
//! RIPEMD-160 digest of the SHA-256 digest of the key, and the first four
//! bytes of the double SHA-256 digest of those 21 bytes.

use crate::base58::{
    base58_bytes, base58_text, is_base58, leading_ones, lemma_decode_inverts_encode,
    lemma_text_is_no_shorter, lemma_text_keeps_leading_zeros, lemma_text_length_below_power,
    lemma_text_stays_in_alphabet,
};
use crate::error::WalletError;
use crate::hashing::{ripemd160, ripemd160_digest, sha256, sha256_digest};
use crate::numerals::{leading_zeros, lemma_leading_run, power};
use vstd::prelude::*;

verus! {

/// The version byte of the one supported address format.
pub const VERSION_BYTE: u8 = 0x00;

/// Length of a compressed public key in bytes.
pub const PUBLIC_KEY_LEN: usize = 33;

/// Length of the checksum in bytes.
pub const CHECKSUM_LEN: usize = 4;

/// The 20-byte hash of a public key: RIPEMD-160 of SHA-256 of the key.
pub open spec fn public_key_hash(key: Seq<u8>) -> Seq<u8> {
    ripemd160(sha256(key)@)@
}

/// The payload of an address: the version byte, then the key hash.
pub open spec fn versioned_payload(hash: Seq<u8>) -> Seq<u8> {
    seq![VERSION_BYTE] + hash
}

/// The checksum of a payload: the first four bytes of SHA-256 applied twice.
pub open spec fn checksum(payload: Seq<u8>) -> Seq<u8> {
    sha256(sha256(payload)@)@.subrange(0, CHECKSUM_LEN as int)
}

/// A payload followed by its checksum.
pub open spec fn checksummed(payload: Seq<u8>) -> Seq<u8> {
    payload + checksum(payload)
}

/// The 25 bytes that the address of `key` encodes.
pub open spec fn address_bytes(key: Seq<u8>) -> Seq<u8> {
    checksummed(versioned_payload(public_key_hash(key)))
}

/// The address of the public key `key`.
pub open spec fn address_text(key: Seq<u8>) -> Seq<char> {
    base58_text(address_bytes(key))
}

/// What a derivation from `key` returns: the address of a 33-byte key, and
/// [`WalletError::InvalidPublicKeyEncoding`] for a key of any other length.
pub open spec fn derivation(key: Seq<u8>, outcome: Result<String, WalletError>) -> bool {
    match outcome {
        Ok(address) => key.len() == PUBLIC_KEY_LEN && address@ == address_text(key),
        Err(e) => key.len() != PUBLIC_KEY_LEN && e == WalletError::InvalidPublicKeyEncoding,
    }
}

/// Hashes a public key down to 20 bytes.
pub fn hash_public_key(key: &[u8]) -> (hash: [u8; 20])
    ensures
        hash@ == public_key_hash(key@),
{
    let inner = sha256_digest(key);
    ripemd160_digest(inner.as_slice())
}

/// Puts the version byte in front of a key hash.
pub fn payload_of(hash: &[u8; 20]) -> (payload: Vec<u8>)
    ensures
        payload@ == versioned_payload(hash@),
        payload@.len() == 21,
{
    let mut payload: Vec<u8> = Vec::with_capacity(25);
    payload.push(VERSION_BYTE);
    payload.extend_from_slice(hash.as_slice());
    payload
}

/// Computes the four checksum bytes of a payload.
pub fn checksum_of(payload: &[u8]) -> (sum: [u8; 4])
    ensures
        sum@ == checksum(payload@),
{
    let first = sha256_digest(payload);
    let second = sha256_digest(first.as_slice());
    [second[0], second[1], second[2], second[3]]
}

/// Appends to a payload its checksum.
pub fn append_checksum(payload: Vec<u8>) -> (bytes: Vec<u8>)
    ensures
        bytes@ == checksummed(payload@),
        bytes@.len() == payload@.len() + 4,
{
    let sum = checksum_of(payload.as_slice());
    let mut bytes = payload;
    bytes.extend_from_slice(sum.as_slice());
    bytes
}

/// The key hash has 20 bytes, the payload 21, and the checksummed payload
/// that is encoded has 25.
pub proof fn lemma_lengths(key: Seq<u8>)
    ensures
        public_key_hash(key).len() == 20,
        versioned_payload(public_key_hash(key)).len() == 21,
        checksum(versioned_payload(public_key_hash(key))).len() == 4,
        address_bytes(key).len() == 25,
{
}

/// Two derivations from the same key end alike: both refuse the key, or both
/// return the same address.
pub proof fn lemma_derivation_is_deterministic(
    key: Seq<u8>,
    first: Result<String, WalletError>,
    second: Result<String, WalletError>,
)
    requires
        derivation(key, first),
        derivation(key, second),
    ensures
        first is Ok <==> second is Ok,
        first is Ok ==> first->Ok_0@ == second->Ok_0@,
        first is Err ==> first->Err_0 == second->Err_0,
{
}

/// An address decodes to 25 bytes whose last four are the checksum of the
/// first 21.
pub proof fn lemma_address_carries_its_checksum(key: Seq<u8>)
    ensures
        base58_bytes(address_text(key)) == Some(address_bytes(key)),
        address_bytes(key).len() == 25,
        checksum(address_bytes(key).subrange(0, 21)) == address_bytes(key).subrange(21, 25),
{
    lemma_decode_inverts_encode(address_bytes(key));
    assert(address_bytes(key).subrange(0, 21) == versioned_payload(public_key_hash(key)));
}

/// An address starts with one `'1'` for the version byte and one more for
/// each zero byte at the front of the key hash.
pub proof fn lemma_address_keeps_leading_zeros(key: Seq<u8>)
    ensures
        leading_ones(address_text(key)) == leading_zeros(address_bytes(key)),
        leading_ones(address_text(key)) >= 1 + leading_zeros(public_key_hash(key)),
        forall|i: int|
            0 <= i < 1 + leading_zeros(public_key_hash(key)) ==> address_text(key)[i] == '1',
{
    lemma_text_keeps_leading_zeros(address_bytes(key));
    lemma_leading_run(public_key_hash(key), 0u8);
    lemma_leading_run(address_bytes(key), 0u8);
}

/// Every character of an address belongs to the base-58 alphabet; none is
/// `0`, `O`, `I` or `l`.
pub proof fn lemma_address_stays_in_alphabet(key: Seq<u8>)
    ensures
        is_base58(address_text(key)),
        forall|i: int|
            0 <= i < address_text(key).len() ==> {
                let c = #[trigger] address_text(key)[i];
                c != '0' && c != 'O' && c != 'I' && c != 'l'
            },
{
    lemma_text_stays_in_alphabet(address_bytes(key));
}

/// Up to 24 bytes spell a number that takes at most nine digits more than
/// they are bytes.
proof fn lemma_nine_digits_more(count: nat)
    requires
        count <= 24,
    ensures
        power(256, count) <= power(58, count + 9),
    decreases 24 - count,
{
    if count == 24 {
        assert(power(256, 24) == 0x1_0000_0000_0000_0000_0000_0000_0000_0000_0000_0000_0000_0000) by {
            reveal_with_fuel(power, 25);
        }
        assert(power(58, 33) >= 0x1_0000_0000_0000_0000_0000_0000_0000_0000_0000_0000_0000_0000) by {
            reveal_with_fuel(power, 34);
        }
    } else {
        lemma_nine_digits_more(count + 1);
    }
}

/// An address has from 25 to 34 characters.
pub proof fn lemma_address_length(key: Seq<u8>)
    ensures
        25 <= address_text(key).len() <= 34,
{
    let bytes = address_bytes(key);
    lemma_text_is_no_shorter(bytes);
    lemma_leading_run(bytes, 0u8);
    let zeros = leading_zeros(bytes);
    let rest = (25 - zeros) as nat;
    lemma_nine_digits_more(rest);
    lemma_text_length_below_power(bytes, rest + 9);
}

} // verus!
