//! The ways in which key generation and address derivation fail.

use vstd::prelude::*;

verus! {

/// Why no key pair or address was produced.
#[derive(Clone, Copy, Debug, PartialEq, Eq, Structural)]
pub enum WalletError {
    /// The operating system's random source could not be read.
    EntropyUnavailable,
    /// The public key is not a 33-byte compressed encoding.
    InvalidPublicKeyEncoding,
}

} // verus!
