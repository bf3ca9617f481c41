use vstd::prelude::*;

use super::block_header::{BlockHeader, BlockHeaderView};
use super::error_block::ErrorBlock;
use super::merkle_tree::{merkle_root_of, txids_of};
use super::transaction::{Transaction, TransactionView};
use crate::messages::compact_size::CompactSize;
use crate::serialization::deserializable_little_endian::DeserializableLittleEndian;
use crate::serialization::serializable_little_endian::SerializableLittleEndian;
use crate::serialization::deserializable_internal_order::{
    io_deserialize_items, items_io_parse, DeserializableInternalOrder,
};
use crate::serialization::error_serialization::ErrorSerialization;
use crate::serialization::serializable_internal_order::{
    io_serialize_items, items_io_bytes, SerializableInternalOrder,
};

verus! {

broadcast use vstd::array::group_array_axioms;

/// A block: its header and the transactions the header commits to.
#[derive(Debug)]
pub struct Block {
    pub header: BlockHeader,
    pub transactions: Vec<Transaction>,
}

/// The mathematical shape of a block.
#[verifier::ext_equal]
pub ghost struct BlockView {
    pub header: BlockHeaderView,
    pub transactions: Seq<TransactionView>,
}

impl DeepView for Block {
    type V = BlockView;

    open spec fn deep_view(&self) -> BlockView {
        BlockView { header: self.header.deep_view(), transactions: self.transactions.deep_view() }
    }
}

/// A copy of a transaction list with the same views.
pub fn clone_transactions(items: &Vec<Transaction>) -> (r: Vec<Transaction>)
    ensures
        r.deep_view() == items.deep_view(),
{
    let mut out: Vec<Transaction> = Vec::new();
    let mut i: usize = 0;
    while i < items.len()
        invariant
            i <= items@.len(),
            out@.len() == i,
            forall|j: int| 0 <= j < i ==> out@[j].deep_view() == items@[j].deep_view(),
        decreases items@.len() - i,
    {
        out.push(items[i].clone());
        i = i + 1;
    }
    proof {
        assert(out.deep_view() =~= items.deep_view());
    }
    out
}

impl Clone for Block {
    fn clone(&self) -> (r: Block)
        ensures
            r.deep_view() == self.deep_view(),
            r.header == self.header,
    {
        let r = Block { header: self.header, transactions: clone_transactions(&self.transactions) };
        proof {
            assert(r.deep_view() =~= self.deep_view());
        }
        r
    }
}

impl PartialEq for Block {
    fn eq(&self, other: &Block) -> (r: bool) {
        if !super::block_header::headers_agree(&self.header, &other.header) {
            return false;
        }
        if self.transactions.len() != other.transactions.len() {
            proof {
                assert(self.deep_view().transactions.len() == self.transactions@.len());
                assert(other.deep_view().transactions.len() == other.transactions@.len());
            }
            return false;
        }
        let mut i: usize = 0;
        while i < self.transactions.len()
            invariant
                i <= self.transactions@.len(),
                self.transactions@.len() == other.transactions@.len(),
                forall|j: int|
                    0 <= j < i ==> self.transactions@[j].deep_view()
                        == other.transactions@[j].deep_view(),
            decreases self.transactions@.len() - i,
        {
            if !(self.transactions[i] == other.transactions[i]) {
                proof {
                    assert(self.deep_view().transactions[i as int] != other.deep_view().transactions[
                    i as int]);
                }
                return false;
            }
            i = i + 1;
        }
        proof {
            assert(self.deep_view() =~= other.deep_view()) by {
                assert(self.transactions.deep_view() =~= other.transactions.deep_view());
            }
        }
        true
    }
}

impl vstd::std_specs::cmp::PartialEqSpecImpl for Block {
    open spec fn obeys_eq_spec() -> bool {
        true
    }

    open spec fn eq_spec(&self, other: &Block) -> bool {
        self.deep_view() == other.deep_view()
    }
}

impl Block {
    /// A block holding the header and no transactions yet.
    pub fn new(header: BlockHeader) -> (r: Block)
        ensures
            r.header == header,
            r.transactions@.len() == 0,
    {
        Block { header, transactions: Vec::new() }
    }

    /// Whether the merkle root over this block's transactions is the one its
    /// header commits to; false for an empty block.
    pub fn proof_of_inclusion(&self) -> (r: bool)
        ensures
            r == (self.transactions@.len() >= 1 && merkle_root_of(txids_of(self.transactions@))
                == self.header.merkle_root_hash@),
    {
        self.header.proof_of_inclusion(&self.transactions)
    }

    /// Adds a transaction to the block; a transaction the block already
    /// holds is refused and the block stays as it was.
    pub fn append_transaction(&mut self, transaction: Transaction) -> (r: Result<(), ErrorBlock>)
        ensures
            (r is Ok <==> !exists|i: int|
                0 <= i < old(self).transactions@.len() && old(self).transactions@[i].deep_view()
                    == transaction.deep_view()),
            r is Ok ==> final(self).header == old(self).header && final(self).transactions@ == old(
                self,
            ).transactions@.push(transaction),
            r is Err ==> *final(self) == *old(self) && r == Err::<(), ErrorBlock>(
                ErrorBlock::TransactionAlreadyInBlock,
            ),
    {
        let mut i: usize = 0;
        while i < self.transactions.len()
            invariant
                i <= self.transactions@.len(),
                forall|j: int|
                    0 <= j < i ==> self.transactions@[j].deep_view() != transaction.deep_view(),
            decreases self.transactions@.len() - i,
        {
            if self.transactions[i] == transaction {
                return Err(ErrorBlock::TransactionAlreadyInBlock);
            }
            i = i + 1;
        }
        self.transactions.push(transaction);
        Ok(())
    }
}

impl SerializableInternalOrder for Block {
    open spec fn io_bytes(&self) -> Seq<u8> {
        self.header.io_bytes() + (CompactSize { value: self.transactions@.len() as u64 }).le_bytes()
            + items_io_bytes(self.transactions@)
    }

    open spec fn io_wf(&self) -> bool {
        true
    }

    fn io_serialize(&self, stream: &mut Vec<u8>) -> (r: Result<(), ErrorSerialization>) {
        self.header.io_serialize(stream)?;
        CompactSize::new(self.transactions.len() as u64).le_serialize(stream)?;
        io_serialize_items(stream, &self.transactions)?;
        proof {
            assert(stream@ =~= old(stream)@ + self.io_bytes());
        }
        Ok(())
    }
}

/// A parsed block carries exactly as many transactions as the count between
/// its header and its transactions declares.
pub proof fn lemma_block_parse_counts(data: Seq<u8>)
    ensures
        Block::io_parse(data) matches Some((v, rest)) ==> (match BlockHeader::io_parse(data) {
            Some((_, after_header)) => match CompactSize::le_parse(after_header) {
                Some((count, _)) => v.transactions.len() == count.value,
                None => false,
            },
            None => false,
        }),
{
    match BlockHeader::io_parse(data) {
        Some((header, rest)) => match CompactSize::le_parse(rest) {
            Some((count, rest)) => {
                crate::serialization::deserializable_internal_order::lemma_items_io_parse_len::<
                    Transaction,
                >(rest, count.value as nat);
            },
            None => {},
        },
        None => {},
    }
}

impl DeserializableInternalOrder for Block {
    open spec fn io_parse(data: Seq<u8>) -> Option<(BlockView, Seq<u8>)> {
        match BlockHeader::io_parse(data) {
            Some((header, rest)) => match CompactSize::le_parse(rest) {
                Some((count, rest)) => match items_io_parse::<Transaction>(
                    rest,
                    count.value as nat,
                ) {
                    Some((transactions, tail)) => Some(
                        (BlockView { header, transactions }, tail),
                    ),
                    None => None,
                },
                None => None,
            },
            None => None,
        }
    }

    fn io_deserialize(stream: &mut &[u8]) -> (r: Result<Block, ErrorSerialization>) {
        let saved: &[u8] = *stream;
        let mut header = BlockHeader::io_deserialize(stream)?;
        let count = match CompactSize::le_deserialize(stream) {
            Ok(count) => count,
            Err(error) => {
                *stream = saved;
                return Err(error);
            },
        };
        header.transaction_count = count;
        match io_deserialize_items::<Transaction>(stream, count.value) {
            Ok(transactions) => {
                let block = Block { header, transactions };
                proof {
                    let parsed = Block::io_parse(saved@).unwrap().0;
                    assert(block.deep_view() =~= parsed);
                }
                Ok(block)
            },
            Err(error) => {
                *stream = saved;
                Err(error)
            },
        }
    }

    #[verifier::rlimit(100)]
    proof fn lemma_io_round_trip(value: Block, rest: Seq<u8>) {
        let count = CompactSize { value: value.transactions@.len() as u64 };
        let body = items_io_bytes(value.transactions@) + rest;
        let counted = count.le_bytes() + body;
        assert(value.transactions@.len() <= usize::MAX) by {
            assert(value.transactions.len() == value.transactions@.len());
        }
        assert(value.io_bytes() + rest =~= value.header.io_bytes() + counted);
        BlockHeader::lemma_io_round_trip(value.header, counted);
        crate::messages::compact_size::lemma_compact_size_round_trip(count, body);
        assert(forall|i: int|
            0 <= i < value.transactions@.len() ==> (#[trigger] value.transactions@[i]).io_wf());
        crate::serialization::deserializable_internal_order::lemma_items_io_round_trip::<
            Transaction,
        >(value.transactions@, rest);
        assert(Block::io_parse(value.io_bytes() + rest) == Some((value.deep_view(), rest))) by {
            assert(Seq::new(value.transactions@.len(), |i: int| value.transactions@[i].deep_view())
                =~= value.transactions.deep_view());
            assert(BlockView {
                header: value.header.deep_view(),
                transactions: value.transactions.deep_view(),
            } =~= value.deep_view());
        }
    }
}

} // verus!
