use vstd::prelude::*;

use super::private_key::ecdsa_verify_ok;
use crate::block_structure::hash::{hash160, hash160_of};

verus! {

/// The 33 bytes of a compressed secp256k1 public key.
pub type PublicKeyType = [u8; 33];

/// Relies on `secp256k1::PublicKey::from_byte_array_compressed`,
/// `ecdsa::Signature::from_der` and `secp256k1::ecdsa::verify`: whether the
/// DER signature verifies for the digest under the compressed key, false
/// when any of the three fails to parse; a function of the bytes alone.
#[verifier::external_body]
fn secp_verify_digest(public_key: &PublicKeyType, digest: &[u8], signature: &[u8]) -> (r: bool)
    ensures
        r == ecdsa_verify_ok(public_key@, digest@, signature@),
{
    let key = secp256k1::PublicKey::from_byte_array_compressed(*public_key);
    let message = secp256k1::Message::from_digest_slice(digest);
    let parsed = secp256k1::ecdsa::Signature::from_der(signature);
    match (key, message, parsed) {
        (Ok(key), Ok(message), Ok(parsed)) => {
            secp256k1::ecdsa::verify(&parsed, message, &key).is_ok()
        },
        _ => false,
    }
}

/// A compressed secp256k1 public key, held as its wire bytes.
#[derive(Debug, Clone, Copy, PartialEq, Eq)]
pub struct PublicKey {
    pub bytes: PublicKeyType,
}

impl PublicKey {
    pub fn new(public_key_bytes: &PublicKeyType) -> (r: PublicKey)
        ensures
            r.bytes == *public_key_bytes,
    {
        PublicKey { bytes: *public_key_bytes }
    }

    /// The key's raw bytes.
    pub fn as_bytes(&self) -> (r: &PublicKeyType)
        ensures
            r == &self.bytes,
    {
        &self.bytes
    }

    /// RIPEMD160 of SHA-256 of the key: the 20-byte hash that P2PKH scripts
    /// and addresses carry.
    pub fn get_hashed_160(&self) -> (r: [u8; 20])
        ensures
            r@ == hash160_of(self.bytes@),
    {
        hash160(self.bytes.as_slice())
    }

    /// Whether the DER signature verifies for the digest under this key.
    pub fn verify_signature(&self, digest: &[u8], signature: &[u8]) -> (r: bool)
        ensures
            r == ecdsa_verify_ok(self.bytes@, digest@, signature@),
    {
        secp_verify_digest(&self.bytes, digest, signature)
    }
}

} // verus!
