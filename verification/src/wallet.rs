//! A freshly generated key pair together with its address, as text.

use crate::address::{
    address_text, append_checksum, derivation, hash_public_key, lemma_address_length, payload_of,
    PUBLIC_KEY_LEN,
};
use crate::base58::base58_encode;
use crate::error::WalletError;
use crate::keys::{compressed_public_key, is_secret_key, KeyPair};
use crate::lower_hex::{hex_encode, hex_text, is_lower_hex, lemma_hex_text};
use vstd::prelude::*;
use vstd::string::*;

verus! {

/// The three texts that a wallet holds.
pub struct WalletText {
    pub private_key: Seq<char>,
    pub public_key: Seq<char>,
    pub address: Seq<char>,
}

/// The texts of the wallet of a secret key and its public key: both keys in
/// hexadecimal, and the address of the public key.
pub open spec fn wallet_text(secret: Seq<u8>, public: Seq<u8>) -> WalletText {
    WalletText {
        private_key: hex_text(secret),
        public_key: hex_text(public),
        address: address_text(public),
    }
}

/// What [`WalletAddress::display`] writes: three labelled lines.
pub open spec fn display_text(wallet: WalletText) -> Seq<char> {
    "Private Key: "@ + wallet.private_key + "\n"@ + "Public Key: "@ + wallet.public_key + "\n"@
        + "Address: "@ + wallet.address + "\n"@
}

/// A key pair in hexadecimal and the address of its public key.
#[derive(Debug)]
pub struct WalletAddress {
    private_key: String,
    public_key: String,
    address: String,
}

impl View for WalletAddress {
    type V = WalletText;

    closed spec fn view(&self) -> WalletText {
        WalletText {
            private_key: self.private_key@,
            public_key: self.public_key@,
            address: self.address@,
        }
    }
}

impl WalletAddress {
    /// The wallet is that of some secret key and the public key that belongs
    /// to it.
    pub open spec fn well_formed(&self) -> bool {
        exists|secret: Seq<u8>|
            #[trigger] is_secret_key(secret) && self@ == wallet_text(
                secret,
                compressed_public_key(secret)@,
            )
    }

    /// The private key of a well-formed wallet has 64 characters, its public
    /// key 66, all of them lower-case hexadecimal, and its address from 25 to
    /// 34.
    pub proof fn lemma_text_lengths(&self)
        requires
            self.well_formed(),
        ensures
            self@.private_key.len() == 64,
            self@.public_key.len() == 66,
            25 <= self@.address.len() <= 34,
            forall|i: int| 0 <= i < 64 ==> is_lower_hex(#[trigger] self@.private_key[i]),
            forall|i: int| 0 <= i < 66 ==> is_lower_hex(#[trigger] self@.public_key[i]),
    {
        let secret = choose|secret: Seq<u8>|
            #[trigger] is_secret_key(secret) && self@ == wallet_text(
                secret,
                compressed_public_key(secret)@,
            );
        let public = compressed_public_key(secret)@;
        lemma_hex_text(secret);
        lemma_hex_text(public);
        lemma_address_length(public);
    }

    /// Generates a key pair and derives its address.
    ///
    /// Fails only where the operating system's random source cannot be read.
    pub fn new() -> (outcome: Result<WalletAddress, WalletError>)
        ensures
            outcome matches Ok(wallet) ==> wallet.well_formed(),
            outcome matches Err(e) ==> e == WalletError::EntropyUnavailable,
    {
        match KeyPair::generate() {
            Ok(keys) => Ok(WalletAddress::from_key_pair(&keys)),
            Err(e) => Err(e),
        }
    }

    /// The wallet of a given key pair.
    pub fn from_key_pair(keys: &KeyPair) -> (wallet: WalletAddress)
        ensures
            wallet@ == wallet_text(keys.secret_bytes(), keys.public_bytes()),
            wallet.well_formed(),
    {
        let secret = keys.secret();
        let public = keys.public();
        let private_key = hex_encode(secret.as_slice());
        let public_key = hex_encode(public.as_slice());
        let address = WalletAddress::generate_bitcoin_address(public.as_slice()).unwrap();
        WalletAddress { private_key, public_key, address }
    }

    /// Derives the address of a compressed public key.
    ///
    /// A key of any length other than 33 bytes is refused, and nothing is
    /// hashed.
    pub fn generate_bitcoin_address(public_key: &[u8]) -> (outcome: Result<String, WalletError>)
        ensures
            derivation(public_key@, outcome),
    {
        if public_key.len() != PUBLIC_KEY_LEN {
            return Err(WalletError::InvalidPublicKeyEncoding);
        }
        let hash = hash_public_key(public_key);
        let payload = payload_of(&hash);
        let bytes = append_checksum(payload);
        Ok(base58_encode(bytes.as_slice()))
    }

    /// The text that shows the wallet: the private key, the public key and
    /// the address, each on a line of its own after its label.
    pub fn display(&self) -> (text: String)
        ensures
            text@ == display_text(self@),
    {
        let mut text = String::from_str("Private Key: ");
        text.append(self.private_key.as_str());
        text.append("\n");
        text.append("Public Key: ");
        text.append(self.public_key.as_str());
        text.append("\n");
        text.append("Address: ");
        text.append(self.address.as_str());
        text.append("\n");
        text
    }

    /// The private key in hexadecimal.
    pub fn private_key(&self) -> (text: &str)
        ensures
            text@ == self@.private_key,
    {
        self.private_key.as_str()
    }

    /// The public key in hexadecimal.
    pub fn public_key(&self) -> (text: &str)
        ensures
            text@ == self@.public_key,
    {
        self.public_key.as_str()
    }

    /// The address.
    pub fn address(&self) -> (text: &str)
        ensures
            text@ == self@.address,
    {
        self.address.as_str()
    }
}

} // verus!
