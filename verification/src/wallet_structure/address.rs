use vstd::prelude::*;

use super::error_wallet::ErrorWallet;
use super::public_key::PublicKey;
use crate::block_structure::hash::{hash160_of, hash256d_reduce, sha256d_of};
use crate::block_structure::transaction_output::TransactionOutput;
use crate::serialization::primitives::bytes_equal;
use crate::serialization::serializable_internal_order::write_slice;

verus! {

pub const ADDRESS_SIZE: usize = 25;

pub const ADDRESS_TESTNET_VERSION_BYTE: u8 = 0x6f;

/// The 25 bytes of a Base58Check address: version, key hash, checksum.
pub type AddressType = [u8; 25];

/// What Base58 encoding (Bitcoin alphabet, no checksum) returns on the given
/// bytes; encoding is injective and every encoded string decodes back.
pub uninterp spec fn base58_of(data: Seq<u8>) -> Seq<char>;

/// Relies on `bs58::encode`: Base58 text of the bytes, a function of the
/// bytes alone.
#[verifier::external_body]
fn base58_encode(bytes: &[u8]) -> (r: String)
    ensures
        r@ == base58_of(bytes@),
{
    bs58::encode(bytes).into_string()
}

/// Relies on `bs58::decode`: the inverse of `bs58::encode`. It returns the
/// bytes whose encoding the text is, and fails exactly when the text is the
/// encoding of no byte string (that is, when it holds a character outside
/// the alphabet).
#[verifier::external_body]
fn base58_decode(text: &str) -> (r: Option<Vec<u8>>)
    ensures
        r matches Some(b) ==> text@ == base58_of(b@) && (forall|c: Seq<u8>|
            text@ == #[trigger] base58_of(c) ==> c == b@),
        r is None ==> !(exists|b: Seq<u8>| text@ == #[trigger] base58_of(b)),
{
    match bs58::decode(text).into_vec() {
        Ok(bytes) => Some(bytes),
        Err(_) => None,
    }
}

/// The standard pay-to-public-key-hash locking script over a 20-byte key
/// hash.
pub open spec fn p2pkh_script(hashed_pk: Seq<u8>) -> Seq<u8> {
    seq![0x76u8, 0xa9u8, 0x14u8] + hashed_pk + seq![0x88u8, 0xacu8]
}

/// The 25 address bytes derived from a 20-byte key hash: the testnet version
/// byte, the hash, and the first four bytes of the double SHA-256 of the
/// first 21.
pub open spec fn address_bytes_of(hashed_pk: Seq<u8>) -> Seq<u8> {
    let payload = seq![ADDRESS_TESTNET_VERSION_BYTE] + hashed_pk;
    payload + sha256d_of(payload).take(4)
}

/// A testnet P2PKH address: its 25 decoded bytes and its Base58 text.
#[derive(Debug, Clone, PartialEq, Eq)]
pub struct Address {
    pub address_bytes: AddressType,
    pub address_string: String,
}

impl Address {
    /// Reads an address from its Base58 text; text of the wrong length, with
    /// foreign characters, or decoding to anything but 25 bytes is refused.
    pub fn new(address: &str) -> (r: Result<Address, ErrorWallet>)
        ensures
            r matches Ok(a) ==> {
                &&& a.address_string@ == address@
                &&& address@ == base58_of(a.address_bytes@)
                &&& forall|c: Seq<u8>|
                    address@ == #[trigger] base58_of(c) ==> c == a.address_bytes@
            },
            (r is Ok <==> address@.len() == 34 && exists|b: Seq<u8>|
                address@ == #[trigger] base58_of(b) && b.len() == 25),
    {
        let char_count = vstd::string::StrSliceExecFns::unicode_len(address);
        if char_count != 34 {
            return Err(ErrorWallet::CannotDecodeAddress(
                "an address is exactly 34 characters".to_string(),
            ));
        }
        let decoded = match base58_decode(address) {
            Some(decoded) => decoded,
            None => {
                return Err(ErrorWallet::CannotDecodeAddress(
                    "the text is not Base58".to_string(),
                ));
            },
        };
        if decoded.len() != 25 {
            return Err(ErrorWallet::CannotDecodeAddress(
                "an address decodes to 25 bytes".to_string(),
            ));
        }
        let mut cursor: &[u8] = decoded.as_slice();
        let address_bytes = match crate::serialization::deserializable_internal_order::read_array::<
            25,
        >(&mut cursor) {
            Some(address_bytes) => address_bytes,
            None => {
                return Err(ErrorWallet::CannotDecodeAddress(
                    "an address decodes to 25 bytes".to_string(),
                ));
            },
        };
        proof {
            assert(address_bytes@ =~= decoded@);
        }
        Ok(Address { address_bytes, address_string: address.to_owned() })
    }

    /// Derives the testnet address of a public key: version byte, HASH160 of
    /// the key, four checksum bytes, and the Base58 text of those 25 bytes.
    pub fn from_public_key(public_key: &PublicKey) -> (r: Result<Address, ErrorWallet>)
        ensures
            r is Ok,
            r matches Ok(a) ==> {
                &&& a.address_bytes@ == address_bytes_of(hash160_of(public_key.bytes@))
                &&& a.address_string@ == base58_of(a.address_bytes@)
            },
    {
        let hashed_pk = public_key.get_hashed_160();
        let mut payload: Vec<u8> = Vec::new();
        payload.push(ADDRESS_TESTNET_VERSION_BYTE);
        write_slice(&mut payload, hashed_pk.as_slice());
        let checksum = match hash256d_reduce(payload.as_slice()) {
            Ok(checksum) => checksum,
            Err(_) => {
                return Err(ErrorWallet::CannotCreateAddress(
                    "hashing the payload failed".to_string(),
                ));
            },
        };
        let mut full: Vec<u8> = Vec::new();
        let mut i: usize = 0;
        while i < payload.len()
            invariant
                i <= payload@.len(),
                full@ == payload@.take(i as int),
            decreases payload@.len() - i,
        {
            full.push(payload[i]);
            proof {
                assert(full@ =~= payload@.take(i + 1));
            }
            i = i + 1;
        }
        proof {
            assert(payload@.take(payload@.len() as int) =~= payload@);
        }
        write_slice(&mut full, checksum.as_slice());
        let mut cursor: &[u8] = full.as_slice();
        let address_bytes = match crate::serialization::deserializable_internal_order::read_array::<
            25,
        >(&mut cursor) {
            Some(address_bytes) => address_bytes,
            None => {
                return Err(ErrorWallet::CannotCreateAddress(
                    "the assembled address is not 25 bytes".to_string(),
                ));
            },
        };
        let address_string = base58_encode(address_bytes.as_slice());
        proof {
            assert(payload@ =~= seq![ADDRESS_TESTNET_VERSION_BYTE] + hash160_of(
                public_key.bytes@,
            ));
            assert(address_bytes@ =~= full@.take(25));
            assert(address_bytes@ =~= address_bytes_of(hash160_of(public_key.bytes@)));
        }
        Ok(Address { address_bytes, address_string })
    }

    /// The 20-byte key hash inside the address.
    pub fn extract_hashed_pk(&self) -> (r: [u8; 20])
        ensures
            r@ == self.address_bytes@.subrange(1, 21),
    {
        let mut out: [u8; 20] = [0u8; 20];
        let mut i: usize = 0;
        while i < 20
            invariant
                i <= 20,
                forall|j: int| 0 <= j < i ==> out@[j] == self.address_bytes@[j + 1],
            decreases 20 - i,
        {
            out[i] = self.address_bytes[i + 1];
            i = i + 1;
        }
        proof {
            assert(out@ =~= self.address_bytes@.subrange(1, 21));
        }
        out
    }

    /// The P2PKH locking script paying to this address.
    pub fn generate_script_pubkey_p2pkh(&self) -> (r: Vec<u8>)
        ensures
            r@ == p2pkh_script(self.address_bytes@.subrange(1, 21)),
    {
        let hashed = self.extract_hashed_pk();
        let mut script: Vec<u8> = Vec::new();
        script.push(0x76);
        script.push(0xa9);
        script.push(0x14);
        write_slice(&mut script, hashed.as_slice());
        script.push(0x88);
        script.push(0xac);
        proof {
            assert(script@ =~= p2pkh_script(self.address_bytes@.subrange(1, 21)));
        }
        script
    }

    /// Whether the output's locking script pays exactly to this address.
    pub fn verify_transaction_ownership(&self, txo: &TransactionOutput) -> (r: bool)
        ensures
            r == (txo.pk_script@ == p2pkh_script(self.address_bytes@.subrange(1, 21))),
    {
        let script = self.generate_script_pubkey_p2pkh();
        bytes_equal(txo.pk_script.as_slice(), script.as_slice())
    }
}

} // verus!
