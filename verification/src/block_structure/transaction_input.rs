use vstd::prelude::*;

use crate::wallet_structure::account::Account;
use crate::wallet_structure::error_wallet::ErrorWallet;

use super::outpoint::{Outpoint, OutpointView};
use super::transaction_output::TransactionOutput;
use crate::messages::compact_size::CompactSize;
use crate::serialization::deserializable_internal_order::DeserializableInternalOrder;
use crate::serialization::deserializable_little_endian::DeserializableLittleEndian;
use crate::serialization::encoding::le_bytes_of;
use crate::serialization::error_serialization::ErrorSerialization;
use crate::serialization::primitives::{bytes_equal, read_bytes};
use crate::serialization::serializable_internal_order::{write_slice, SerializableInternalOrder};
use crate::serialization::serializable_little_endian::SerializableLittleEndian;

verus! {

/// One input of a transaction: the prior output it spends, the script that
/// unlocks it, and the sequence number.
#[derive(Debug)]
pub struct TransactionInput {
    pub previous_output: Outpoint,
    pub signature_script: Vec<u8>,
    pub sequence: u32,
}

/// The mathematical shape of an input.
#[verifier::ext_equal]
pub ghost struct TransactionInputView {
    pub previous_output: OutpointView,
    pub signature_script: Seq<u8>,
    pub sequence: u32,
}

impl DeepView for TransactionInput {
    type V = TransactionInputView;

    open spec fn deep_view(&self) -> TransactionInputView {
        TransactionInputView {
            previous_output: self.previous_output.deep_view(),
            signature_script: self.signature_script@,
            sequence: self.sequence,
        }
    }
}

impl Clone for TransactionInput {
    fn clone(&self) -> (r: TransactionInput)
        ensures
            r.deep_view() == self.deep_view(),
    {
        let r = TransactionInput {
            previous_output: self.previous_output,
            signature_script: crate::serialization::primitives::clone_bytes(
                &self.signature_script,
            ),
            sequence: self.sequence,
        };
        proof {
            assert(r.deep_view() =~= self.deep_view());
        }
        r
    }
}

impl PartialEq for TransactionInput {
    fn eq(&self, other: &TransactionInput) -> (r: bool) {
        let r = self.previous_output.same_as(&other.previous_output) && bytes_equal(
            self.signature_script.as_slice(),
            other.signature_script.as_slice(),
        ) && self.sequence == other.sequence;
        proof {
            if r {
                assert(self.deep_view() =~= other.deep_view());
            }
        }
        r
    }
}

impl vstd::std_specs::cmp::PartialEqSpecImpl for TransactionInput {
    open spec fn obeys_eq_spec() -> bool {
        true
    }

    open spec fn eq_spec(&self, other: &TransactionInput) -> bool {
        self.deep_view() == other.deep_view()
    }
}

impl TransactionInput {
    pub fn new(previous_output: Outpoint, signature_script: Vec<u8>, sequence: u32) -> (r:
        TransactionInput)
        ensures
            r.previous_output == previous_output,
            r.signature_script == signature_script,
            r.sequence == sequence,
    {
        TransactionInput { previous_output, signature_script, sequence }
    }
}

/// The wire bytes of an input view.
pub open spec fn txin_view_bytes(v: TransactionInputView) -> Seq<u8> {
    super::outpoint::outpoint_view_bytes(v.previous_output) + (CompactSize {
        value: v.signature_script.len() as u64,
    }).le_bytes() + v.signature_script + le_bytes_of(v.sequence as nat, 4)
}

/// A transaction view with every input's unlocking script emptied.
pub open spec fn strip_scripts(v: super::transaction::TransactionView) -> super::transaction::TransactionView {
    super::transaction::TransactionView {
        version: v.version,
        tx_in: Seq::new(
            v.tx_in.len(),
            |k: int| TransactionInputView {
                previous_output: v.tx_in[k].previous_output,
                signature_script: Seq::empty(),
                sequence: v.tx_in[k].sequence,
            },
        ),
        tx_out: v.tx_out,
        time: v.time,
    }
}

/// The digest an input signs: the transaction with every unlocking script
/// empty but the signed input's, which carries the spent output's locking
/// script, followed by the four SIGHASH_ALL bytes, double-SHA256 hashed.
pub open spec fn sighash_of(
    unsigned: super::transaction::TransactionView,
    index: int,
    previous_script: Seq<u8>,
) -> Seq<u8> {
    let preimage = super::transaction::TransactionView {
        version: unsigned.version,
        tx_in: unsigned.tx_in.update(
            index,
            TransactionInputView {
                previous_output: unsigned.tx_in[index].previous_output,
                signature_script: previous_script,
                sequence: unsigned.tx_in[index].sequence,
            },
        ),
        tx_out: unsigned.tx_out,
        time: unsigned.time,
    };
    crate::block_structure::hash::sha256d_of(
        super::transaction::tx_view_bytes(preimage) + seq![1u8, 0u8, 0u8, 0u8],
    )
}

/// The unlocking script of a signed input: the DER signature with the
/// SIGHASH_ALL byte, then the 33-byte public key, each length-prefixed.
pub open spec fn signature_script_of(
    key: Seq<u8>,
    unsigned: super::transaction::TransactionView,
    index: int,
    previous_script: Seq<u8>,
    public_key: Seq<u8>,
) -> Seq<u8> {
    let signature = crate::wallet_structure::private_key::ecdsa_signature_of(
        key,
        sighash_of(unsigned, index, previous_script),
    );
    seq![(signature.len() + 1) as u8] + signature + seq![0x01u8] + seq![33u8] + public_key
}

impl TransactionInput {
    /// Builds the unlocking script for one input of `transaction`:
    /// the SIGHASH_ALL preimage is hashed and signed with the account's key,
    /// and the signature and public key are pushed.
    pub fn create_signature_script(
        transaction: &super::transaction::Transaction,
        input_index: usize,
        previous_pk_script: &Vec<u8>,
        account: &Account,
    ) -> (r: Result<Vec<u8>, ErrorWallet>)
        requires
            account.wf(),
            input_index < transaction.tx_in@.len(),
        ensures
            r is Ok,
            r matches Ok(s) ==> s@ == signature_script_of(
                account.private_key.key_bytes@,
                strip_scripts(transaction.deep_view()),
                input_index as int,
                previous_pk_script@,
                account.public_key.bytes@,
            ),
    {
        let ghost unsigned = strip_scripts(transaction.deep_view());
        let mut preimage_inputs: Vec<TransactionInput> = Vec::new();
        let mut k: usize = 0;
        while k < transaction.tx_in.len()
            invariant
                input_index < transaction.tx_in@.len(),
                unsigned == strip_scripts(transaction.deep_view()),
                k <= transaction.tx_in@.len(),
                preimage_inputs@.len() == k,
                forall|m: int|
                    0 <= m < k && m != input_index ==> (#[trigger] preimage_inputs@[
                    m]).deep_view() == unsigned.tx_in[m],
                input_index < k ==> preimage_inputs@[input_index as int].deep_view()
                    == (TransactionInputView {
                    previous_output: unsigned.tx_in[input_index as int].previous_output,
                    signature_script: previous_pk_script@,
                    sequence: unsigned.tx_in[input_index as int].sequence,
                }),
            decreases transaction.tx_in@.len() - k,
        {
            let script: Vec<u8> = if k == input_index {
                crate::serialization::primitives::clone_bytes(previous_pk_script)
            } else {
                Vec::new()
            };
            let entry = TransactionInput::new(
                transaction.tx_in[k].previous_output,
                script,
                transaction.tx_in[k].sequence,
            );
            preimage_inputs.push(entry);
            k = k + 1;
        }
        let preimage = super::transaction::Transaction {
            version: transaction.version,
            tx_in: preimage_inputs,
            tx_out: super::transaction::clone_outputs(&transaction.tx_out),
            time: transaction.time,
        };
        let mut message: Vec<u8> = Vec::new();
        let _ = preimage.io_serialize(&mut message);
        message.push(0x01);
        message.push(0x00);
        message.push(0x00);
        message.push(0x00);
        proof {
            super::transaction::lemma_tx_bytes_from_view(preimage);
            assert(preimage.deep_view().tx_in =~= unsigned.tx_in.update(
                input_index as int,
                TransactionInputView {
                    previous_output: unsigned.tx_in[input_index as int].previous_output,
                    signature_script: previous_pk_script@,
                    sequence: unsigned.tx_in[input_index as int].sequence,
                },
            ));
            assert(preimage.deep_view() =~= (super::transaction::TransactionView {
                version: unsigned.version,
                tx_in: unsigned.tx_in.update(
                    input_index as int,
                    TransactionInputView {
                        previous_output: unsigned.tx_in[input_index as int].previous_output,
                        signature_script: previous_pk_script@,
                        sequence: unsigned.tx_in[input_index as int].sequence,
                    },
                ),
                tx_out: unsigned.tx_out,
                time: unsigned.time,
            }));
            assert(message@ =~= super::transaction::tx_view_bytes(preimage.deep_view()) + seq![
                1u8, 0u8, 0u8, 0u8,
            ]);
        }
        let digest = match crate::block_structure::hash::hash256d(message.as_slice()) {
            Ok(digest) => digest,
            Err(_) => {
                return Err(ErrorWallet::CannotCreateNewTransaction(
                    "hashing the signing preimage failed".to_string(),
                ));
            },
        };
        let signature = match account.private_key.sign(digest.as_slice()) {
            Ok(signature) => signature,
            Err(error) => {
                return Err(error);
            },
        };
        let mut script: Vec<u8> = Vec::new();
        script.push((signature.len() + 1) as u8);
        write_slice(&mut script, signature.as_slice());
        script.push(0x01);
        script.push(33);
        write_slice(&mut script, account.public_key.as_bytes().as_slice());
        proof {
            assert(digest@ == sighash_of(unsigned, input_index as int, previous_pk_script@));
            assert(script@ =~= signature_script_of(
                account.private_key.key_bytes@,
                unsigned,
                input_index as int,
                previous_pk_script@,
                account.public_key.bytes@,
            ));
        }
        Ok(script)
    }

    /// The still-unsigned input that will spend the given owned output:
    /// empty unlocking script, default sequence.
    pub fn from_output_of_account(output_information: &(Outpoint, TransactionOutput)) -> (r:
        TransactionInput)
        ensures
            r.previous_output == output_information.0,
            r.signature_script@ == Seq::<u8>::empty(),
            r.sequence == 0xFFFF_FFFFu32,
    {
        TransactionInput::new(output_information.0, Vec::new(), 0xFFFF_FFFF)
    }
}

impl SerializableInternalOrder for TransactionInput {
    open spec fn io_bytes(&self) -> Seq<u8> {
        txin_view_bytes(self.deep_view())
    }

    open spec fn io_wf(&self) -> bool {
        true
    }

    fn io_serialize(&self, stream: &mut Vec<u8>) -> (r: Result<(), ErrorSerialization>) {
        self.previous_output.io_serialize(stream)?;
        CompactSize::new(self.signature_script.len() as u64).le_serialize(stream)?;
        write_slice(stream, self.signature_script.as_slice());
        self.sequence.le_serialize(stream)?;
        proof {
            assert(stream@ =~= old(stream)@ + self.io_bytes());
        }
        Ok(())
    }
}

impl DeserializableInternalOrder for TransactionInput {
    open spec fn io_parse(data: Seq<u8>) -> Option<(TransactionInputView, Seq<u8>)> {
        match Outpoint::io_parse(data) {
            Some((previous_output, rest)) => match <
                CompactSize as DeserializableLittleEndian
            >::le_parse(rest) {
                Some((length, rest)) => {
                    if rest.len() >= length.value {
                        match <u32 as DeserializableLittleEndian>::le_parse(
                            rest.skip(length.value as int),
                        ) {
                            Some((sequence, tail)) => Some(
                                (
                                    TransactionInputView {
                                        previous_output,
                                        signature_script: rest.take(length.value as int),
                                        sequence,
                                    },
                                    tail,
                                ),
                            ),
                            None => None,
                        }
                    } else {
                        None
                    }
                },
                None => None,
            },
            None => None,
        }
    }

    fn io_deserialize(stream: &mut &[u8]) -> (r: Result<TransactionInput, ErrorSerialization>) {
        let saved: &[u8] = *stream;
        let previous_output = Outpoint::io_deserialize(stream)?;
        let length = match CompactSize::le_deserialize(stream) {
            Ok(length) => length,
            Err(error) => {
                *stream = saved;
                return Err(error);
            },
        };
        if length.value > stream.len() as u64 {
            *stream = saved;
            return Err(ErrorSerialization::ErrorWhileReading);
        }
        let signature_script = match read_bytes(stream, length.value as usize) {
            Some(signature_script) => signature_script,
            None => {
                *stream = saved;
                return Err(ErrorSerialization::ErrorWhileReading);
            },
        };
        match u32::le_deserialize(stream) {
            Ok(sequence) => {
                let out = TransactionInput { previous_output, signature_script, sequence };
                proof {
                    let parsed = TransactionInput::io_parse(saved@).unwrap().0;
                    assert(out.deep_view() =~= parsed);
                }
                Ok(out)
            },
            Err(error) => {
                *stream = saved;
                Err(error)
            },
        }
    }

    #[verifier::rlimit(100)]
    proof fn lemma_io_round_trip(value: TransactionInput, rest: Seq<u8>) {
        assert(value.signature_script@.len() <= usize::MAX) by {
            assert(value.signature_script.len() == value.signature_script@.len());
        }
        let length = CompactSize { value: value.signature_script@.len() as u64 };
        let seq_bytes = le_bytes_of(value.sequence as nat, 4);
        let after_outpoint = length.le_bytes() + (value.signature_script@ + (seq_bytes + rest));
        assert(value.io_bytes() + rest =~= value.previous_output.io_bytes() + after_outpoint);
        Outpoint::lemma_io_round_trip(value.previous_output, after_outpoint);
        crate::messages::compact_size::lemma_compact_size_round_trip(
            length,
            value.signature_script@ + (seq_bytes + rest),
        );
        let body = value.signature_script@ + (seq_bytes + rest);
        assert(body.take(length.value as int) =~= value.signature_script@);
        assert(body.skip(length.value as int) =~= seq_bytes + rest);
        crate::serialization::deserializable_little_endian::lemma_u32_le_round_trip(
            value.sequence,
            rest,
        );
        assert(TransactionInput::io_parse(value.io_bytes() + rest) == Some(
            (value.deep_view(), rest),
        )) by {
            assert(TransactionInputView {
                previous_output: value.previous_output.deep_view(),
                signature_script: body.take(length.value as int),
                sequence: value.sequence,
            } =~= value.deep_view());
        }
    }
}

} // verus!
