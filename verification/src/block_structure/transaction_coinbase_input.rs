use vstd::prelude::*;

use crate::messages::compact_size::CompactSize;
use crate::serialization::deserializable_internal_order::DeserializableInternalOrder;
use crate::serialization::deserializable_little_endian::DeserializableLittleEndian;
use crate::serialization::encoding::le_bytes_of;
use crate::serialization::error_serialization::ErrorSerialization;
use crate::serialization::primitives::read_bytes;
use crate::serialization::serializable_internal_order::{write_slice, SerializableInternalOrder};
use crate::serialization::serializable_little_endian::SerializableLittleEndian;

verus! {

broadcast use vstd::array::group_array_axioms;

/// The single input of a coinbase transaction: it spends no prior output,
/// so the wire form carries an all-zero hash and an all-ones index before
/// the script and sequence.
#[derive(Debug, Clone)]
pub struct TransactionCoinbaseInput {
    pub signature_script: Vec<u8>,
    pub sequence: u32,
}

/// The mathematical shape of a coinbase input.
#[verifier::ext_equal]
pub ghost struct TransactionCoinbaseInputView {
    pub signature_script: Seq<u8>,
    pub sequence: u32,
}

impl DeepView for TransactionCoinbaseInput {
    type V = TransactionCoinbaseInputView;

    open spec fn deep_view(&self) -> TransactionCoinbaseInputView {
        TransactionCoinbaseInputView {
            signature_script: self.signature_script@,
            sequence: self.sequence,
        }
    }
}

/// The fixed 36 bytes that open every coinbase input: 32 zero bytes and a
/// four-byte all-ones index.
pub open spec fn coinbase_outpoint_bytes() -> Seq<u8> {
    seq![
        0u8, 0u8, 0u8, 0u8, 0u8, 0u8, 0u8, 0u8, 0u8, 0u8, 0u8, 0u8, 0u8, 0u8, 0u8, 0u8, 0u8, 0u8,
        0u8, 0u8, 0u8, 0u8, 0u8, 0u8, 0u8, 0u8, 0u8, 0u8, 0u8, 0u8, 0u8, 0u8, 0xFFu8, 0xFFu8,
        0xFFu8, 0xFFu8,
    ]
}

impl SerializableInternalOrder for TransactionCoinbaseInput {
    open spec fn io_bytes(&self) -> Seq<u8> {
        coinbase_outpoint_bytes() + (CompactSize {
            value: self.signature_script@.len() as u64,
        }).le_bytes() + self.signature_script@ + le_bytes_of(self.sequence as nat, 4)
    }

    open spec fn io_wf(&self) -> bool {
        true
    }

    fn io_serialize(&self, stream: &mut Vec<u8>) -> (r: Result<(), ErrorSerialization>) {
        let null_hash: [u8; 32] = [
            0u8, 0u8, 0u8, 0u8, 0u8, 0u8, 0u8, 0u8, 0u8, 0u8, 0u8, 0u8, 0u8, 0u8, 0u8, 0u8,
            0u8, 0u8, 0u8, 0u8, 0u8, 0u8, 0u8, 0u8, 0u8, 0u8, 0u8, 0u8, 0u8, 0u8, 0u8, 0u8,
        ];
        null_hash.io_serialize(stream)?;
        let all_ones: u32 = 0xFFFF_FFFF;
        all_ones.le_serialize(stream)?;
        CompactSize::new(self.signature_script.len() as u64).le_serialize(stream)?;
        write_slice(stream, self.signature_script.as_slice());
        self.sequence.le_serialize(stream)?;
        proof {
            lemma_all_ones_bytes();
            assert(forall|i: int| 0 <= i < 32 ==> null_hash@[i] == 0u8);
            assert(stream@ =~= old(stream)@ + self.io_bytes());
        }
        Ok(())
    }
}

/// The four little-endian bytes of the all-ones index.
proof fn lemma_all_ones_bytes()
    ensures
        le_bytes_of(0xFFFF_FFFFnat, 4) == seq![0xFFu8, 0xFFu8, 0xFFu8, 0xFFu8],
{
    assert(le_bytes_of(0u64 as nat, 0) =~= Seq::<u8>::empty());
    assert(le_bytes_of(0xFFnat, 1) =~= seq![0xFFu8] + le_bytes_of(0nat, 0));
    assert(le_bytes_of(0xFF_FFnat, 2) =~= seq![0xFFu8] + le_bytes_of(0xFFnat, 1));
    assert(le_bytes_of(0xFF_FF_FFnat, 3) =~= seq![0xFFu8] + le_bytes_of(0xFF_FFnat, 2));
    assert(le_bytes_of(0xFFFF_FFFFnat, 4) =~= seq![0xFFu8] + le_bytes_of(0xFF_FF_FFnat, 3));
    assert(le_bytes_of(0xFFFF_FFFFnat, 4) =~= seq![0xFFu8, 0xFFu8, 0xFFu8, 0xFFu8]);
}

impl DeserializableInternalOrder for TransactionCoinbaseInput {
    open spec fn io_parse(data: Seq<u8>) -> Option<(TransactionCoinbaseInputView, Seq<u8>)> {
        if data.len() >= 36 && data.take(36) == coinbase_outpoint_bytes() {
            match CompactSize::le_parse(data.skip(36)) {
                Some((length, rest)) => {
                    if rest.len() >= length.value {
                        match <u32 as DeserializableLittleEndian>::le_parse(
                            rest.skip(length.value as int),
                        ) {
                            Some((sequence, tail)) => Some(
                                (
                                    TransactionCoinbaseInputView {
                                        signature_script: rest.take(length.value as int),
                                        sequence,
                                    },
                                    tail,
                                ),
                            ),
                            None => None,
                        }
                    } else {
                        None
                    }
                },
                None => None,
            }
        } else {
            None
        }
    }

    fn io_deserialize(stream: &mut &[u8]) -> (r: Result<
        TransactionCoinbaseInput,
        ErrorSerialization,
    >) {
        let saved: &[u8] = *stream;
        let opening = match read_bytes(stream, 36) {
            Some(opening) => opening,
            None => {
                return Err(ErrorSerialization::ErrorWhileReading);
            },
        };
        let mut expected: Vec<u8> = Vec::new();
        let null_hash: [u8; 32] = [
            0u8, 0u8, 0u8, 0u8, 0u8, 0u8, 0u8, 0u8, 0u8, 0u8, 0u8, 0u8, 0u8, 0u8, 0u8, 0u8,
            0u8, 0u8, 0u8, 0u8, 0u8, 0u8, 0u8, 0u8, 0u8, 0u8, 0u8, 0u8, 0u8, 0u8, 0u8, 0u8,
        ];
        write_slice(&mut expected, null_hash.as_slice());
        expected.push(0xFF);
        expected.push(0xFF);
        expected.push(0xFF);
        expected.push(0xFF);
        proof {
            assert(forall|i: int| 0 <= i < 32 ==> null_hash@[i] == 0u8);
            assert(expected@.len() == 36);
            assert(forall|i: int| 0 <= i < 32 ==> expected@[i] == 0u8);
            assert(expected@[32] == 0xFFu8 && expected@[33] == 0xFFu8 && expected@[34] == 0xFFu8
                && expected@[35] == 0xFFu8);
            assert(expected@ =~= coinbase_outpoint_bytes());
        }
        if !crate::serialization::primitives::bytes_equal(
            opening.as_slice(),
            expected.as_slice(),
        ) {
            *stream = saved;
            return Err(ErrorSerialization::ErrorInDeserialization(
                "the input is no coinbase input".to_string(),
            ));
        }
        let length = match CompactSize::le_deserialize(stream) {
            Ok(length) => length,
            Err(error) => {
                *stream = saved;
                return Err(error);
            },
        };
        if length.value > stream.len() as u64 {
            *stream = saved;
            return Err(ErrorSerialization::ErrorWhileReading);
        }
        let signature_script = match read_bytes(stream, length.value as usize) {
            Some(signature_script) => signature_script,
            None => {
                *stream = saved;
                return Err(ErrorSerialization::ErrorWhileReading);
            },
        };
        match u32::le_deserialize(stream) {
            Ok(sequence) => {
                let out = TransactionCoinbaseInput { signature_script, sequence };
                proof {
                    let parsed = TransactionCoinbaseInput::io_parse(saved@).unwrap().0;
                    assert(out.deep_view() =~= parsed);
                }
                Ok(out)
            },
            Err(error) => {
                *stream = saved;
                Err(error)
            },
        }
    }

    proof fn lemma_io_round_trip(value: TransactionCoinbaseInput, rest: Seq<u8>) {
        assert(value.signature_script@.len() <= usize::MAX) by {
            assert(value.signature_script.len() == value.signature_script@.len());
        }
        let length = CompactSize { value: value.signature_script@.len() as u64 };
        let seq_bytes = le_bytes_of(value.sequence as nat, 4);
        let data = value.io_bytes() + rest;
        assert(data.take(36) =~= coinbase_outpoint_bytes());
        assert(data.skip(36) =~= length.le_bytes() + (value.signature_script@ + (seq_bytes
            + rest)));
        crate::messages::compact_size::lemma_compact_size_round_trip(
            length,
            value.signature_script@ + (seq_bytes + rest),
        );
        let body = value.signature_script@ + (seq_bytes + rest);
        assert(body.take(length.value as int) =~= value.signature_script@);
        assert(body.skip(length.value as int) =~= seq_bytes + rest);
        crate::serialization::deserializable_little_endian::lemma_u32_le_round_trip(
            value.sequence,
            rest,
        );
        assert(TransactionCoinbaseInput::io_parse(data) == Some((value.deep_view(), rest))) by {
            assert(TransactionCoinbaseInputView {
                signature_script: body.take(length.value as int),
                sequence: value.sequence,
            } =~= value.deep_view());
        }
    }
}

} // verus!
