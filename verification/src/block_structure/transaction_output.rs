use vstd::prelude::*;

use crate::messages::compact_size::CompactSize;
use crate::serialization::deserializable_internal_order::DeserializableInternalOrder;
use crate::serialization::deserializable_little_endian::DeserializableLittleEndian;
use crate::serialization::encoding::{i64_as_unsigned, le_bytes_of};
use crate::serialization::error_serialization::ErrorSerialization;
use crate::serialization::primitives::{bytes_equal, read_bytes};
use crate::serialization::serializable_internal_order::{write_slice, SerializableInternalOrder};
use crate::serialization::serializable_little_endian::SerializableLittleEndian;

verus! {

/// One output of a transaction: a value in satoshis and the script that
/// locks it.
#[derive(Debug)]
pub struct TransactionOutput {
    pub value: i64,
    pub pk_script: Vec<u8>,
}

/// The mathematical shape of an output.
#[verifier::ext_equal]
pub ghost struct TransactionOutputView {
    pub value: i64,
    pub pk_script: Seq<u8>,
}

impl DeepView for TransactionOutput {
    type V = TransactionOutputView;

    open spec fn deep_view(&self) -> TransactionOutputView {
        TransactionOutputView { value: self.value, pk_script: self.pk_script@ }
    }
}

impl Clone for TransactionOutput {
    fn clone(&self) -> (r: TransactionOutput)
        ensures
            r.deep_view() == self.deep_view(),
    {
        TransactionOutput {
            value: self.value,
            pk_script: crate::serialization::primitives::clone_bytes(&self.pk_script),
        }
    }
}

impl PartialEq for TransactionOutput {
    fn eq(&self, other: &TransactionOutput) -> (r: bool) {
        let r = self.value == other.value && bytes_equal(
            self.pk_script.as_slice(),
            other.pk_script.as_slice(),
        );
        proof {
            if r {
                assert(self.deep_view() =~= other.deep_view());
            }
        }
        r
    }
}

impl vstd::std_specs::cmp::PartialEqSpecImpl for TransactionOutput {
    open spec fn obeys_eq_spec() -> bool {
        true
    }

    open spec fn eq_spec(&self, other: &TransactionOutput) -> bool {
        self.deep_view() == other.deep_view()
    }
}

/// The wire bytes of an output view: value, script length, script.
pub open spec fn txout_bytes(v: TransactionOutputView) -> Seq<u8> {
    le_bytes_of(i64_as_unsigned(v.value), 8) + (CompactSize {
        value: v.pk_script.len() as u64,
    }).le_bytes() + v.pk_script
}

impl SerializableInternalOrder for TransactionOutput {
    open spec fn io_bytes(&self) -> Seq<u8> {
        txout_bytes(self.deep_view())
    }

    open spec fn io_wf(&self) -> bool {
        true
    }

    fn io_serialize(&self, stream: &mut Vec<u8>) -> (r: Result<(), ErrorSerialization>) {
        self.value.le_serialize(stream)?;
        CompactSize::new(self.pk_script.len() as u64).le_serialize(stream)?;
        write_slice(stream, self.pk_script.as_slice());
        proof {
            assert(stream@ =~= old(stream)@ + self.io_bytes());
        }
        Ok(())
    }
}

impl DeserializableInternalOrder for TransactionOutput {
    open spec fn io_parse(data: Seq<u8>) -> Option<(TransactionOutputView, Seq<u8>)> {
        match <i64 as DeserializableLittleEndian>::le_parse(data) {
            Some((value, rest)) => match <CompactSize as DeserializableLittleEndian>::le_parse(
                rest,
            ) {
                Some((length, rest)) => {
                    if rest.len() >= length.value {
                        Some(
                            (
                                TransactionOutputView {
                                    value,
                                    pk_script: rest.take(length.value as int),
                                },
                                rest.skip(length.value as int),
                            ),
                        )
                    } else {
                        None
                    }
                },
                None => None,
            },
            None => None,
        }
    }

    fn io_deserialize(stream: &mut &[u8]) -> (r: Result<TransactionOutput, ErrorSerialization>) {
        let saved: &[u8] = *stream;
        let value = i64::le_deserialize(stream)?;
        let length = match CompactSize::le_deserialize(stream) {
            Ok(length) => length,
            Err(error) => {
                *stream = saved;
                return Err(error);
            },
        };
        if length.value > stream.len() as u64 {
            *stream = saved;
            return Err(ErrorSerialization::ErrorWhileReading);
        }
        match read_bytes(stream, length.value as usize) {
            Some(pk_script) => {
                let out = TransactionOutput { value, pk_script };
                proof {
                    let parsed = TransactionOutput::io_parse(saved@).unwrap().0;
                    assert(out.deep_view() =~= parsed);
                }
                Ok(out)
            },
            None => {
                *stream = saved;
                Err(ErrorSerialization::ErrorWhileReading)
            },
        }
    }

    #[verifier::rlimit(100)]
    proof fn lemma_io_round_trip(value: TransactionOutput, rest: Seq<u8>) {
        assert(value.pk_script@.len() <= usize::MAX) by {
            assert(value.pk_script.len() == value.pk_script@.len());
        }
        let length = CompactSize { value: value.pk_script@.len() as u64 };
        let value_bytes = le_bytes_of(i64_as_unsigned(value.value), 8);
        let after_value = length.le_bytes() + (value.pk_script@ + rest);
        assert(value.io_bytes() + rest =~= value_bytes + after_value);
        crate::serialization::deserializable_little_endian::lemma_i64_le_round_trip(
            value.value,
            after_value,
        );
        crate::messages::compact_size::lemma_compact_size_round_trip(
            length,
            value.pk_script@ + rest,
        );
        let body = value.pk_script@ + rest;
        assert(body.take(length.value as int) =~= value.pk_script@);
        assert(body.skip(length.value as int) =~= rest);
        assert(TransactionOutput::io_parse(value.io_bytes() + rest) == Some(
            (value.deep_view(), rest),
        )) by {
            assert(TransactionOutputView {
                value: value.value,
                pk_script: body.take(length.value as int),
            } =~= value.deep_view());
        }
    }
}

} // verus!
