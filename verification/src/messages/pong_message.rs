use vstd::prelude::*;

use super::command_name::CommandName;
use super::message::Message;
use crate::serialization::deserializable_internal_order::DeserializableInternalOrder;
use crate::serialization::deserializable_little_endian::DeserializableLittleEndian;
use crate::serialization::encoding::le_bytes_of;
use crate::serialization::error_serialization::ErrorSerialization;
use crate::serialization::serializable_internal_order::SerializableInternalOrder;
use crate::serialization::serializable_little_endian::SerializableLittleEndian;

verus! {

/// The echo of a ping, carrying the same nonce.
#[derive(Debug, Clone, Copy, PartialEq, Eq, Structural)]
pub struct PongMessage {
    pub nonce: u64,
}

impl DeepView for PongMessage {
    type V = PongMessage;

    open spec fn deep_view(&self) -> PongMessage {
        *self
    }
}

impl SerializableInternalOrder for PongMessage {
    open spec fn io_bytes(&self) -> Seq<u8> {
        le_bytes_of(self.nonce as nat, 8)
    }

    open spec fn io_wf(&self) -> bool {
        true
    }

    fn io_serialize(&self, stream: &mut Vec<u8>) -> (r: Result<(), ErrorSerialization>) {
        self.nonce.le_serialize(stream)
    }
}

impl DeserializableInternalOrder for PongMessage {
    open spec fn io_parse(data: Seq<u8>) -> Option<(PongMessage, Seq<u8>)> {
        match <u64 as DeserializableLittleEndian>::le_parse(data) {
            Some((nonce, rest)) => Some((PongMessage { nonce }, rest)),
            None => None,
        }
    }

    fn io_deserialize(stream: &mut &[u8]) -> (r: Result<PongMessage, ErrorSerialization>) {
        match u64::le_deserialize(stream) {
            Ok(nonce) => Ok(PongMessage { nonce }),
            Err(error) => Err(error),
        }
    }

    proof fn lemma_io_round_trip(value: PongMessage, rest: Seq<u8>) {
        crate::serialization::deserializable_little_endian::lemma_u64_le_round_trip(
            value.nonce,
            rest,
        );
    }
}

impl Message for PongMessage {
    open spec fn spec_command() -> CommandName {
        CommandName::Pong
    }

    fn get_command_name() -> (r: CommandName) {
        CommandName::Pong
    }
}

} // verus!
