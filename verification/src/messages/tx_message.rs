use vstd::prelude::*;

use super::command_name::CommandName;
use super::message::Message;
use crate::block_structure::transaction::{Transaction, TransactionView};
use crate::serialization::deserializable_internal_order::DeserializableInternalOrder;
use crate::serialization::error_serialization::ErrorSerialization;
use crate::serialization::serializable_internal_order::SerializableInternalOrder;

verus! {

/// A transaction offered to the network.
#[derive(Debug, Clone)]
pub struct TxMessage {
    pub transaction: Transaction,
}

/// The mathematical shape of a transaction message.
#[verifier::ext_equal]
pub ghost struct TxMessageView {
    pub transaction: TransactionView,
}

impl DeepView for TxMessage {
    type V = TxMessageView;

    open spec fn deep_view(&self) -> TxMessageView {
        TxMessageView { transaction: self.transaction.deep_view() }
    }
}

impl SerializableInternalOrder for TxMessage {
    open spec fn io_bytes(&self) -> Seq<u8> {
        self.transaction.io_bytes()
    }

    open spec fn io_wf(&self) -> bool {
        self.transaction.io_wf()
    }

    fn io_serialize(&self, stream: &mut Vec<u8>) -> (r: Result<(), ErrorSerialization>) {
        self.transaction.io_serialize(stream)
    }
}

impl DeserializableInternalOrder for TxMessage {
    open spec fn io_parse(data: Seq<u8>) -> Option<(TxMessageView, Seq<u8>)> {
        match Transaction::io_parse(data) {
            Some((transaction, rest)) => Some((TxMessageView { transaction }, rest)),
            None => None,
        }
    }

    fn io_deserialize(stream: &mut &[u8]) -> (r: Result<TxMessage, ErrorSerialization>) {
        match Transaction::io_deserialize(stream) {
            Ok(transaction) => Ok(TxMessage { transaction }),
            Err(error) => Err(error),
        }
    }

    proof fn lemma_io_round_trip(value: TxMessage, rest: Seq<u8>) {
        Transaction::lemma_io_round_trip(value.transaction, rest);
        assert(TxMessageView { transaction: value.transaction.deep_view() } =~= value.deep_view());
    }
}

impl Message for TxMessage {
    open spec fn spec_command() -> CommandName {
        CommandName::Tx
    }

    fn get_command_name() -> (r: CommandName) {
        CommandName::Tx
    }
}

} // verus!
