use vstd::prelude::*;

use super::error_block::ErrorBlock;
use super::hash::{hash256d, sha256d_of, HashType};
use super::transaction_coinbase_input::{TransactionCoinbaseInput, TransactionCoinbaseInputView};
use crate::messages::compact_size::CompactSize;
use crate::serialization::deserializable_internal_order::DeserializableInternalOrder;
use crate::serialization::deserializable_little_endian::DeserializableLittleEndian;
use crate::serialization::encoding::le_bytes_of;
use crate::serialization::error_serialization::ErrorSerialization;
use crate::serialization::serializable_internal_order::SerializableInternalOrder;
use crate::serialization::serializable_little_endian::SerializableLittleEndian;

verus! {

/// A coinbase transaction: the one transaction of a block that creates new
/// coins, with its single input and no prior output to spend.
#[derive(Debug, Clone)]
pub struct TransactionCoinbase {
    pub version: i32,
    pub tx_in: TransactionCoinbaseInput,
    pub time: u32,
}

/// The mathematical shape of a coinbase transaction.
#[verifier::ext_equal]
pub ghost struct TransactionCoinbaseView {
    pub version: i32,
    pub tx_in: TransactionCoinbaseInputView,
    pub time: u32,
}

impl DeepView for TransactionCoinbase {
    type V = TransactionCoinbaseView;

    open spec fn deep_view(&self) -> TransactionCoinbaseView {
        TransactionCoinbaseView {
            version: self.version,
            tx_in: self.tx_in.deep_view(),
            time: self.time,
        }
    }
}

impl TransactionCoinbase {
    /// The transaction identifier: the double SHA-256 of the wire bytes.
    pub fn get_tx_id(&self) -> (r: Result<HashType, ErrorBlock>)
        ensures
            r is Ok,
            r matches Ok(h) ==> h@ == sha256d_of(self.io_bytes()),
    {
        let mut buffer: Vec<u8> = Vec::new();
        if self.io_serialize(&mut buffer).is_err() {
            return Err(ErrorBlock::CouldNotGetTxId);
        }
        match hash256d(buffer.as_slice()) {
            Ok(txid) => Ok(txid),
            Err(_) => Err(ErrorBlock::CouldNotGetTxId),
        }
    }
}

impl SerializableInternalOrder for TransactionCoinbase {
    open spec fn io_bytes(&self) -> Seq<u8> {
        self.version.le_bytes() + (CompactSize { value: 1u64 }).le_bytes() + self.tx_in.io_bytes()
            + le_bytes_of(self.time as nat, 4)
    }

    open spec fn io_wf(&self) -> bool {
        true
    }

    fn io_serialize(&self, stream: &mut Vec<u8>) -> (r: Result<(), ErrorSerialization>) {
        self.version.le_serialize(stream)?;
        CompactSize::new(1).le_serialize(stream)?;
        self.tx_in.io_serialize(stream)?;
        self.time.le_serialize(stream)?;
        proof {
            assert(stream@ =~= old(stream)@ + self.io_bytes());
        }
        Ok(())
    }
}

impl DeserializableInternalOrder for TransactionCoinbase {
    open spec fn io_parse(data: Seq<u8>) -> Option<(TransactionCoinbaseView, Seq<u8>)> {
        match <i32 as DeserializableLittleEndian>::le_parse(data) {
            Some((version, rest)) => match CompactSize::le_parse(rest) {
                Some((count, rest)) => {
                    if count.value == 1 {
                        match TransactionCoinbaseInput::io_parse(rest) {
                            Some((tx_in, rest)) => match <
                                u32 as DeserializableLittleEndian
                            >::le_parse(rest) {
                                Some((time, tail)) => Some(
                                    (TransactionCoinbaseView { version, tx_in, time }, tail),
                                ),
                                None => None,
                            },
                            None => None,
                        }
                    } else {
                        None
                    }
                },
                None => None,
            },
            None => None,
        }
    }

    fn io_deserialize(stream: &mut &[u8]) -> (r: Result<TransactionCoinbase, ErrorSerialization>) {
        let saved: &[u8] = *stream;
        let version = i32::le_deserialize(stream)?;
        let count = match CompactSize::le_deserialize(stream) {
            Ok(count) => count,
            Err(error) => {
                *stream = saved;
                return Err(error);
            },
        };
        if count.value != 1 {
            *stream = saved;
            return Err(ErrorSerialization::ErrorInDeserialization(
                "a coinbase transaction has exactly one input".to_string(),
            ));
        }
        let tx_in = match TransactionCoinbaseInput::io_deserialize(stream) {
            Ok(tx_in) => tx_in,
            Err(error) => {
                *stream = saved;
                return Err(error);
            },
        };
        match u32::le_deserialize(stream) {
            Ok(time) => {
                let out = TransactionCoinbase { version, tx_in, time };
                proof {
                    let parsed = TransactionCoinbase::io_parse(saved@).unwrap().0;
                    assert(out.deep_view() =~= parsed);
                }
                Ok(out)
            },
            Err(error) => {
                *stream = saved;
                Err(error)
            },
        }
    }

    proof fn lemma_io_round_trip(value: TransactionCoinbase, rest: Seq<u8>) {
        let count = CompactSize { value: 1u64 };
        let time_bytes = le_bytes_of(value.time as nat, 4);
        let part_in = value.tx_in.io_bytes() + (time_bytes + rest);
        let part_count = count.le_bytes() + part_in;
        assert(value.io_bytes() + rest =~= value.version.le_bytes() + part_count);
        crate::serialization::deserializable_little_endian::lemma_i32_le_round_trip(
            value.version,
            part_count,
        );
        crate::messages::compact_size::lemma_compact_size_round_trip(count, part_in);
        TransactionCoinbaseInput::lemma_io_round_trip(value.tx_in, time_bytes + rest);
        crate::serialization::deserializable_little_endian::lemma_u32_le_round_trip(
            value.time,
            rest,
        );
        assert(TransactionCoinbase::io_parse(value.io_bytes() + rest) == Some(
            (value.deep_view(), rest),
        )) by {
            assert(TransactionCoinbaseView {
                version: value.version,
                tx_in: value.tx_in.deep_view(),
                time: value.time,
            } =~= value.deep_view());
        }
    }
}

} // verus!
