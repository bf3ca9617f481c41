use vstd::prelude::*;

use crate::serialization::error_serialization::ErrorSerialization;

verus! {

/// A 256-bit hash as its 32 raw bytes, least-significant byte first on the
/// wire.
pub type HashType = [u8; 32];

/// The first four bytes of a double-SHA256 hash: a frame checksum.
pub type HashTypeReduce = [u8; 4];

/// What double SHA-256 returns on the given bytes; always 32 bytes long.
pub uninterp spec fn sha256d_of(data: Seq<u8>) -> Seq<u8>;

/// What RIPEMD160 of SHA-256 returns on the given bytes; always 20 bytes
/// long.
pub uninterp spec fn hash160_of(data: Seq<u8>) -> Seq<u8>;

/// Relies on `bitcoin_hashes::sha256d::Hash::hash`: double SHA-256 of the
/// input, a pure function of the bytes alone, 32 bytes long.
#[verifier::external_body]
pub fn hash256d(bytes: &[u8]) -> (r: Result<HashType, ErrorSerialization>)
    ensures
        r is Ok,
        r matches Ok(h) ==> h@ == sha256d_of(bytes@),
{
    Ok(bitcoin_hashes::sha256d::Hash::hash(bytes).to_byte_array())
}

/// Relies on `bitcoin_hashes::hash160::Hash::hash`: RIPEMD160 of SHA-256 of
/// the input, a pure function of the bytes alone, 20 bytes long.
#[verifier::external_body]
pub fn hash160(bytes: &[u8]) -> (r: [u8; 20])
    ensures
        r@ == hash160_of(bytes@),
{
    bitcoin_hashes::hash160::Hash::hash(bytes).to_byte_array()
}

/// The first four bytes of the double SHA-256 of `bytes`: Bitcoin's message
/// checksum.
pub fn hash256d_reduce(bytes: &[u8]) -> (r: Result<HashTypeReduce, ErrorSerialization>)
    ensures
        r is Ok,
        r matches Ok(h) ==> h@ == sha256d_of(bytes@).take(4),
{
    let full = match hash256d(bytes) {
        Ok(full) => full,
        Err(error) => {
            return Err(error);
        },
    };
    let reduced: HashTypeReduce = [full[0], full[1], full[2], full[3]];
    proof {
        assert(reduced@ =~= sha256d_of(bytes@).take(4));
    }
    Ok(reduced)
}

/// Whether two hashes hold the same bytes.
pub fn hashes_equal(left: &HashType, right: &HashType) -> (r: bool)
    ensures
        r == (left@ == right@),
{
    let mut i: usize = 0;
    while i < 32
        invariant
            i <= 32,
            forall|j: int| 0 <= j < i ==> left@[j] == right@[j],
        decreases 32 - i,
    {
        if left[i] != right[i] {
            return false;
        }
        i = i + 1;
    }
    proof {
        assert(left@ =~= right@);
    }
    true
}

} // verus!
