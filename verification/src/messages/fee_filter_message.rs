use vstd::prelude::*;

use super::command_name::CommandName;
use super::message::Message;
use crate::serialization::deserializable_internal_order::DeserializableInternalOrder;
use crate::serialization::deserializable_little_endian::DeserializableLittleEndian;
use crate::serialization::encoding::le_bytes_of;
use crate::serialization::error_serialization::ErrorSerialization;
use crate::serialization::serializable_internal_order::SerializableInternalOrder;
use crate::serialization::serializable_little_endian::SerializableLittleEndian;

verus! {

/// The lowest fee rate a peer cares to hear about; read and ignored.
#[derive(Debug, Clone, Copy, PartialEq, Eq, Structural)]
pub struct FeeFilterMessage {
    pub feerate: u64,
}

impl DeepView for FeeFilterMessage {
    type V = FeeFilterMessage;

    open spec fn deep_view(&self) -> FeeFilterMessage {
        *self
    }
}

impl SerializableInternalOrder for FeeFilterMessage {
    open spec fn io_bytes(&self) -> Seq<u8> {
        le_bytes_of(self.feerate as nat, 8)
    }

    open spec fn io_wf(&self) -> bool {
        true
    }

    fn io_serialize(&self, stream: &mut Vec<u8>) -> (r: Result<(), ErrorSerialization>) {
        self.feerate.le_serialize(stream)
    }
}

impl DeserializableInternalOrder for FeeFilterMessage {
    open spec fn io_parse(data: Seq<u8>) -> Option<(FeeFilterMessage, Seq<u8>)> {
        match <u64 as DeserializableLittleEndian>::le_parse(data) {
            Some((feerate, rest)) => Some((FeeFilterMessage { feerate }, rest)),
            None => None,
        }
    }

    fn io_deserialize(stream: &mut &[u8]) -> (r: Result<FeeFilterMessage, ErrorSerialization>) {
        match u64::le_deserialize(stream) {
            Ok(feerate) => Ok(FeeFilterMessage { feerate }),
            Err(error) => Err(error),
        }
    }

    proof fn lemma_io_round_trip(value: FeeFilterMessage, rest: Seq<u8>) {
        crate::serialization::deserializable_little_endian::lemma_u64_le_round_trip(
            value.feerate,
            rest,
        );
    }
}

impl Message for FeeFilterMessage {
    open spec fn spec_command() -> CommandName {
        CommandName::FeeFilter
    }

    fn get_command_name() -> (r: CommandName) {
        CommandName::FeeFilter
    }
}

} // verus!
