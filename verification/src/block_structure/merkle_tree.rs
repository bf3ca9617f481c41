use vstd::prelude::*;

use super::error_block::ErrorBlock;
use super::hash::{hash256d, sha256d_of, HashType};
use super::transaction::Transaction;
use crate::serialization::serializable_internal_order::{write_array, SerializableInternalOrder};

verus! {

broadcast use vstd::array::group_array_axioms;

/// The leaf level extended to even length: an odd list repeats its last
/// entry.
pub open spec fn merkle_padded(hashes: Seq<Seq<u8>>) -> Seq<Seq<u8>> {
    if hashes.len() % 2 == 1 {
        hashes.push(hashes.last())
    } else {
        hashes
    }
}

/// One level of the merkle tree: each neighbouring pair hashed together.
pub open spec fn merkle_step(hashes: Seq<Seq<u8>>) -> Seq<Seq<u8>> {
    Seq::new(
        merkle_padded(hashes).len() / 2,
        |i: int| sha256d_of(merkle_padded(hashes)[2 * i] + merkle_padded(hashes)[2 * i + 1]),
    )
}

/// The merkle root over the given leaf hashes: pair and hash until one hash
/// is left.
pub open spec fn merkle_root_of(hashes: Seq<Seq<u8>>) -> Seq<u8>
    recommends
        hashes.len() >= 1,
    decreases hashes.len(),
{
    if hashes.len() <= 1 {
        if hashes.len() == 1 {
            hashes[0]
        } else {
            Seq::empty()
        }
    } else {
        merkle_root_of(merkle_step(hashes))
    }
}

/// The transaction identifiers of the given transactions, in order.
pub open spec fn txids_of(transactions: Seq<Transaction>) -> Seq<Seq<u8>> {
    Seq::new(transactions.len(), |i: int| sha256d_of(transactions[i].io_bytes()))
}

/// The merkle root over a list of leaf hashes; fails only on an empty list.
pub fn merkle_root_from_hashes(hashes: Vec<HashType>) -> (r: Result<HashType, ErrorBlock>)
    ensures
        r is Ok <==> hashes@.len() >= 1,
        r matches Ok(h) ==> h@ == merkle_root_of(hashes.deep_view()),
{
    let ghost original = hashes.deep_view();
    if hashes.len() == 0 {
        return Err(ErrorBlock::CouldNotHash);
    }
    let mut current = hashes;
    while current.len() > 1
        invariant
            current@.len() >= 1,
            merkle_root_of(current.deep_view()) == merkle_root_of(original),
        decreases current@.len(),
    {
        let ghost level = current.deep_view();
        if current.len() % 2 == 1 {
            let last = current[current.len() - 1];
            current.push(last);
        }
        proof {
            assert(current.deep_view() =~= merkle_padded(level)) by {
                assert(forall|i: int|
                    0 <= i < current@.len() ==> current.deep_view()[i] =~= merkle_padded(level)[i]);
            }
        }
        let mut next: Vec<HashType> = Vec::new();
        let mut i: usize = 0;
        while i + 1 < current.len()
            invariant
                i % 2 == 0,
                i <= current@.len(),
                current@.len() % 2 == 0,
                current@.len() >= 2,
                current.deep_view() == merkle_padded(level),
                next@.len() == i / 2,
                forall|k: int|
                    0 <= k < i / 2 ==> next.deep_view()[k] == sha256d_of(
                        #[trigger] merkle_padded(level)[2 * k] + merkle_padded(level)[2 * k + 1],
                    ),
            decreases current@.len() - i,
        {
            let mut combined: Vec<u8> = Vec::new();
            write_array(&mut combined, &current[i]);
            write_array(&mut combined, &current[i + 1]);
            let ghost pair = combined@;
            let digest = match hash256d(combined.as_slice()) {
                Ok(digest) => digest,
                Err(_) => {
                    return Err(ErrorBlock::CouldNotHash);
                },
            };
            let ghost next_pre = next.deep_view();
            next.push(digest);
            proof {
                assert(next.deep_view() =~= next_pre.push(digest.deep_view()));
                assert(digest.deep_view() =~= digest@);
                assert(current.deep_view()[i as int] =~= current@[i as int]@);
                assert(current.deep_view()[i + 1] =~= current@[i + 1]@);
                assert(pair =~= merkle_padded(level)[2 * (i as int / 2)] + merkle_padded(level)[2
                    * (i as int / 2) + 1]);
            }
            i = i + 2;
        }
        proof {
            assert(i == current@.len());
            assert(next.deep_view() =~= merkle_step(level)) by {
                assert(next.deep_view().len() == merkle_step(level).len());
                assert(forall|k: int|
                    0 <= k < next.deep_view().len() ==> next.deep_view()[k] == merkle_step(level)[
                        k
                    ]);
            }
            assert(merkle_root_of(level) == merkle_root_of(merkle_step(level)));
            assert(merkle_step(level).len() < level.len());
        }
        current = next;
    }
    let root = current[0];
    proof {
        assert(current.deep_view()[0] =~= root@);
        assert(merkle_root_of(current.deep_view()) == current.deep_view()[0]);
    }
    Ok(root)
}

/// The merkle tree of a block's transactions, reduced to its root.
pub struct MerkleTree {
    pub root: HashType,
}

impl MerkleTree {
    /// Builds the tree over the identifiers of the given transactions;
    /// fails only when there are none.
    pub fn new(transactions: &Vec<Transaction>) -> (r: Result<MerkleTree, ErrorBlock>)
        ensures
            r is Ok <==> transactions@.len() >= 1,
            r matches Ok(t) ==> t.root@ == merkle_root_of(txids_of(transactions@)),
    {
        let hashes = match transaction_hashes(transactions) {
            Ok(hashes) => hashes,
            Err(error) => {
                return Err(error);
            },
        };
        if hashes.len() == 0 {
            return Err(ErrorBlock::CouldNotHash);
        }
        proof {
            assert(hashes.deep_view() =~~= txids_of(transactions@));
        }
        match merkle_root_from_hashes(hashes) {
            Ok(root) => Ok(MerkleTree { root }),
            Err(error) => Err(error),
        }
    }
}

/// The identifiers of the given transactions, in order.
pub fn transaction_hashes(transactions: &Vec<Transaction>) -> (r: Result<Vec<HashType>, ErrorBlock>)
    ensures
        r is Ok,
        r matches Ok(v) ==> {
            &&& v@.len() == transactions@.len()
            &&& forall|i: int|
                0 <= i < v@.len() ==> (#[trigger] v@[i])@ == sha256d_of(
                    transactions@[i].io_bytes(),
                )
        },
{
    let mut hashes: Vec<HashType> = Vec::new();
    let mut i: usize = 0;
    while i < transactions.len()
        invariant
            i <= transactions@.len(),
            hashes@.len() == i,
            forall|j: int|
                0 <= j < i ==> (#[trigger] hashes@[j])@ == sha256d_of(
                    transactions@[j].io_bytes(),
                ),
        decreases transactions@.len() - i,
    {
        let txid = match transactions[i].get_tx_id() {
            Ok(txid) => txid,
            Err(error) => {
                return Err(error);
            },
        };
        hashes.push(txid);
        i = i + 1;
    }
    Ok(hashes)
}

} // verus!
