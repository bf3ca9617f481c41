use vstd::prelude::*;

use super::error_wallet::ErrorWallet;

verus! {

/// The 32 raw bytes of a private key.
pub type PrivateKeyType = [u8; 32];

/// Whether 32 bytes are a valid secp256k1 secret key: a scalar inside the
/// curve's order, a property of the bytes alone.
pub uninterp spec fn secp_key_valid(key: Seq<u8>) -> bool;

/// The 33-byte compressed public key that belongs to a valid secret key.
pub uninterp spec fn secp_public_key_of(key: Seq<u8>) -> Seq<u8>;

/// The DER bytes of the deterministic (RFC 6979) ECDSA signature of a
/// 32-byte digest under a valid secret key.
pub uninterp spec fn ecdsa_signature_of(key: Seq<u8>, digest: Seq<u8>) -> Seq<u8>;

/// Whether ECDSA verification accepts the signature for the digest under
/// the compressed public key; a function of the three byte strings alone.
pub uninterp spec fn ecdsa_verify_ok(public_key: Seq<u8>, digest: Seq<u8>, signature: Seq<u8>) -> bool;

/// Relies on `secp256k1::SecretKey::from_byte_array`: it accepts exactly the
/// byte arrays that are valid secret keys.
#[verifier::external_body]
fn secp_check_key(key: &PrivateKeyType) -> (r: bool)
    ensures
        r == secp_key_valid(key@),
{
    secp256k1::SecretKey::from_byte_array(*key).is_ok()
}

/// Relies on `secp256k1::ecdsa::sign` (RFC 6979, so a function of key and
/// digest alone) and `Signature::serialize_der`, whose output is at most 72
/// bytes; the secp256k1 documentation shows `ecdsa::verify` accepting what
/// `ecdsa::sign` produced under the key's public key
/// (`PublicKey::from_secret_key`, compressed with `serialize`).
#[verifier::external_body]
fn secp_sign_digest(key: &PrivateKeyType, digest: &[u8; 32]) -> (r: Vec<u8>)
    requires
        secp_key_valid(key@),
    ensures
        r@ == ecdsa_signature_of(key@, digest@),
        ecdsa_verify_ok(secp_public_key_of(key@), digest@, r@),
        r@.len() <= 72,
{
    let secret = secp256k1::SecretKey::from_byte_array(*key).expect("a checked key");
    let message = secp256k1::Message::from_digest(*digest);
    secp256k1::ecdsa::sign(message, &secret).serialize_der().to_vec()
}

/// Relies on `secp256k1::PublicKey::from_secret_key` and
/// `PublicKey::serialize`: the compressed public key of a valid secret key,
/// a function of the key bytes alone.
#[verifier::external_body]
pub fn secp_derive_public_key(key: &PrivateKeyType) -> (r: [u8; 33])
    requires
        secp_key_valid(key@),
    ensures
        r@ == secp_public_key_of(key@),
{
    let secret = secp256k1::SecretKey::from_byte_array(*key).expect("a checked key");
    secp256k1::PublicKey::from_secret_key(&secret).serialize()
}

/// A validated secp256k1 private key.
#[derive(Debug, Clone, Copy, PartialEq, Eq)]
pub struct PrivateKey {
    pub key_bytes: PrivateKeyType,
}

impl PrivateKey {
    /// The key's bytes were accepted by the curve library.
    pub open spec fn wf(&self) -> bool {
        secp_key_valid(self.key_bytes@)
    }

    /// Wraps 32 bytes as a private key; bytes outside the curve's order are
    /// refused.
    pub fn new(private_key_bytes: &PrivateKeyType) -> (r: Result<PrivateKey, ErrorWallet>)
        ensures
            r is Ok <==> secp_key_valid(private_key_bytes@),
            r matches Ok(k) ==> k.key_bytes == *private_key_bytes && k.wf(),
    {
        if secp_check_key(private_key_bytes) {
            Ok(PrivateKey { key_bytes: *private_key_bytes })
        } else {
            Err(ErrorWallet::CannotGeneratePrivateKey(
                "the bytes are not a valid secret key".to_string(),
            ))
        }
    }

    /// Signs a 32-byte digest; the signature verifies under this key's
    /// public key. A message of any other length is refused.
    pub fn sign(&self, message: &[u8]) -> (r: Result<Vec<u8>, ErrorWallet>)
        requires
            self.wf(),
        ensures
            r is Ok <==> message@.len() == 32,
            r matches Ok(s) ==> {
                &&& s@ == ecdsa_signature_of(self.key_bytes@, message@)
                &&& ecdsa_verify_ok(secp_public_key_of(self.key_bytes@), message@, s@)
                &&& s@.len() <= 72
            },
    {
        if message.len() != 32 {
            return Err(ErrorWallet::CannotSignMessage(
                "only a 32-byte digest can be signed".to_string(),
            ));
        }
        let mut cursor: &[u8] = message;
        let digest = match crate::serialization::deserializable_internal_order::read_array::<
            32,
        >(&mut cursor) {
            Some(digest) => digest,
            None => {
                return Err(ErrorWallet::CannotSignMessage(
                    "only a 32-byte digest can be signed".to_string(),
                ));
            },
        };
        proof {
            assert(digest@ =~= message@);
        }
        Ok(secp_sign_digest(&self.key_bytes, &digest))
    }

    /// The compressed public key that belongs to this private key.
    pub fn derive_public_key(&self) -> (r: [u8; 33])
        requires
            self.wf(),
        ensures
            r@ == secp_public_key_of(self.key_bytes@),
    {
        secp_derive_public_key(&self.key_bytes)
    }
}

} // verus!
