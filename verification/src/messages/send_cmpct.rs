use vstd::prelude::*;

use super::command_name::CommandName;
use super::message::Message;
use crate::serialization::deserializable_internal_order::DeserializableInternalOrder;
use crate::serialization::deserializable_little_endian::DeserializableLittleEndian;
use crate::serialization::encoding::le_bytes_of;
use crate::serialization::error_serialization::ErrorSerialization;
use crate::serialization::serializable_internal_order::SerializableInternalOrder;
use crate::serialization::serializable_little_endian::SerializableLittleEndian;

verus! {

/// The compact-block preference: whether to announce with compact blocks,
/// and which version of them.
#[derive(Debug, Clone, Copy, PartialEq, Eq, Structural)]
pub struct SendCmpctMessage {
    pub announce: bool,
    pub version: u64,
}

impl DeepView for SendCmpctMessage {
    type V = SendCmpctMessage;

    open spec fn deep_view(&self) -> SendCmpctMessage {
        *self
    }
}

impl SerializableInternalOrder for SendCmpctMessage {
    open spec fn io_bytes(&self) -> Seq<u8> {
        self.announce.le_bytes() + le_bytes_of(self.version as nat, 8)
    }

    open spec fn io_wf(&self) -> bool {
        true
    }

    fn io_serialize(&self, stream: &mut Vec<u8>) -> (r: Result<(), ErrorSerialization>) {
        self.announce.le_serialize(stream)?;
        self.version.le_serialize(stream)?;
        proof {
            assert(stream@ =~= old(stream)@ + self.io_bytes());
        }
        Ok(())
    }
}

impl DeserializableInternalOrder for SendCmpctMessage {
    open spec fn io_parse(data: Seq<u8>) -> Option<(SendCmpctMessage, Seq<u8>)> {
        match <bool as DeserializableLittleEndian>::le_parse(data) {
            Some((announce, rest)) => match <u64 as DeserializableLittleEndian>::le_parse(rest) {
                Some((version, rest)) => Some((SendCmpctMessage { announce, version }, rest)),
                None => None,
            },
            None => None,
        }
    }

    fn io_deserialize(stream: &mut &[u8]) -> (r: Result<SendCmpctMessage, ErrorSerialization>) {
        let saved: &[u8] = *stream;
        let announce = bool::le_deserialize(stream)?;
        match u64::le_deserialize(stream) {
            Ok(version) => Ok(SendCmpctMessage { announce, version }),
            Err(error) => {
                *stream = saved;
                Err(error)
            },
        }
    }

    proof fn lemma_io_round_trip(value: SendCmpctMessage, rest: Seq<u8>) {
        let tail = le_bytes_of(value.version as nat, 8) + rest;
        assert(value.io_bytes() + rest =~= value.announce.le_bytes() + tail);
        assert(value.announce.le_bytes().len() == 1);
        assert((value.announce.le_bytes() + tail)[0] == value.announce.le_bytes()[0]);
        assert((value.announce.le_bytes() + tail).skip(1) =~= tail);
        crate::serialization::deserializable_little_endian::lemma_u64_le_round_trip(
            value.version,
            rest,
        );
        if value.announce {
            assert((value.io_bytes() + rest)[0] == 1u8);
        } else {
            assert((value.io_bytes() + rest)[0] == 0u8);
        }
    }
}

impl Message for SendCmpctMessage {
    open spec fn spec_command() -> CommandName {
        CommandName::SendCmpct
    }

    fn get_command_name() -> (r: CommandName) {
        CommandName::SendCmpct
    }
}

} // verus!
