//! Derivation of a legacy pay-to-public-key-hash address from a compressed
//! secp256k1 public key, and generation of the key pair it belongs to.
//!
//! [`WalletAddress::new`] generates a key pair and derives its address;
//! [`WalletAddress::generate_bitcoin_address`] derives the address of a given
//! public key. The modules [`address`], [`base58`] and [`numerals`] define
//! what an address is and prove what holds of every address.

pub mod address;
pub mod base58;
pub mod error;
pub mod hashing;
pub mod keys;
pub mod lower_hex;
pub mod numerals;
pub mod wallet;

pub use crate::error::WalletError;
pub use crate::keys::KeyPair;
pub use crate::wallet::WalletAddress;
