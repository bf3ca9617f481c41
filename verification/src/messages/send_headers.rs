use vstd::prelude::*;

use super::command_name::CommandName;
use super::message::Message;
use crate::serialization::deserializable_internal_order::DeserializableInternalOrder;
use crate::serialization::error_serialization::ErrorSerialization;
use crate::serialization::serializable_internal_order::SerializableInternalOrder;

verus! {

/// The empty request to announce new blocks by header.
#[derive(Debug, Clone, Copy, PartialEq, Eq, Structural)]
pub struct SendHeadersMessage;

impl DeepView for SendHeadersMessage {
    type V = SendHeadersMessage;

    open spec fn deep_view(&self) -> SendHeadersMessage {
        *self
    }
}

impl SerializableInternalOrder for SendHeadersMessage {
    open spec fn io_bytes(&self) -> Seq<u8> {
        Seq::empty()
    }

    open spec fn io_wf(&self) -> bool {
        true
    }

    fn io_serialize(&self, stream: &mut Vec<u8>) -> (r: Result<(), ErrorSerialization>) {
        proof {
            assert(stream@ =~= old(stream)@ + self.io_bytes());
        }
        Ok(())
    }
}

impl DeserializableInternalOrder for SendHeadersMessage {
    open spec fn io_parse(data: Seq<u8>) -> Option<(SendHeadersMessage, Seq<u8>)> {
        Some((SendHeadersMessage, data))
    }

    fn io_deserialize(stream: &mut &[u8]) -> (r: Result<SendHeadersMessage, ErrorSerialization>) {
        Ok(SendHeadersMessage)
    }

    proof fn lemma_io_round_trip(value: SendHeadersMessage, rest: Seq<u8>) {
        assert(value.io_bytes() + rest =~= rest);
    }
}

impl Message for SendHeadersMessage {
    open spec fn spec_command() -> CommandName {
        CommandName::SendHeaders
    }

    fn get_command_name() -> (r: CommandName) {
        CommandName::SendHeaders
    }
}

} // verus!
