use vstd::prelude::*;

use super::command_name::CommandName;
use super::message::Message;
use crate::serialization::deserializable_internal_order::DeserializableInternalOrder;
use crate::serialization::error_serialization::ErrorSerialization;
use crate::serialization::serializable_internal_order::SerializableInternalOrder;

verus! {

/// The empty acknowledgement that closes a handshake.
#[derive(Debug, Clone, Copy, PartialEq, Eq, Structural)]
pub struct VerackMessage;

impl DeepView for VerackMessage {
    type V = VerackMessage;

    open spec fn deep_view(&self) -> VerackMessage {
        *self
    }
}

impl SerializableInternalOrder for VerackMessage {
    open spec fn io_bytes(&self) -> Seq<u8> {
        Seq::empty()
    }

    open spec fn io_wf(&self) -> bool {
        true
    }

    fn io_serialize(&self, stream: &mut Vec<u8>) -> (r: Result<(), ErrorSerialization>) {
        proof {
            assert(stream@ =~= old(stream)@ + self.io_bytes());
        }
        Ok(())
    }
}

impl DeserializableInternalOrder for VerackMessage {
    open spec fn io_parse(data: Seq<u8>) -> Option<(VerackMessage, Seq<u8>)> {
        Some((VerackMessage, data))
    }

    fn io_deserialize(stream: &mut &[u8]) -> (r: Result<VerackMessage, ErrorSerialization>) {
        Ok(VerackMessage)
    }

    proof fn lemma_io_round_trip(value: VerackMessage, rest: Seq<u8>) {
        assert(value.io_bytes() + rest =~= rest);
    }
}

impl Message for VerackMessage {
    open spec fn spec_command() -> CommandName {
        CommandName::Verack
    }

    fn get_command_name() -> (r: CommandName) {
        CommandName::Verack
    }
}

} // verus!
