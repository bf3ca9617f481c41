use vstd::prelude::*;

use super::command_name::CommandName;
use crate::serialization::deserializable_internal_order::{
    read_array, DeserializableInternalOrder,
};
use crate::serialization::deserializable_little_endian::DeserializableLittleEndian;
use crate::serialization::encoding::le_bytes_of;
use crate::serialization::error_serialization::ErrorSerialization;
use crate::serialization::serializable_internal_order::SerializableInternalOrder;
use crate::serialization::serializable_little_endian::SerializableLittleEndian;

verus! {

/// The four network magic bytes that open every frame.
pub type MagicType = [u8; 4];

/// The 24 bytes before every payload: magic, command, payload length and
/// checksum.
#[derive(Debug, Clone, Copy, PartialEq, Eq)]
pub struct MessageHeader {
    pub magic_numbers: MagicType,
    pub command_name: CommandName,
    pub payload_size: u32,
    pub checksum: [u8; 4],
}

/// The mathematical shape of a frame header.
#[verifier::ext_equal]
pub ghost struct MessageHeaderView {
    pub magic_numbers: Seq<u8>,
    pub command_name: CommandName,
    pub payload_size: u32,
    pub checksum: Seq<u8>,
}

impl DeepView for MessageHeader {
    type V = MessageHeaderView;

    open spec fn deep_view(&self) -> MessageHeaderView {
        MessageHeaderView {
            magic_numbers: self.magic_numbers@,
            command_name: self.command_name,
            payload_size: self.payload_size,
            checksum: self.checksum@,
        }
    }
}

impl SerializableInternalOrder for MessageHeader {
    open spec fn io_bytes(&self) -> Seq<u8> {
        self.magic_numbers@ + self.command_name.io_bytes() + le_bytes_of(
            self.payload_size as nat,
            4,
        ) + self.checksum@
    }

    open spec fn io_wf(&self) -> bool {
        true
    }

    fn io_serialize(&self, stream: &mut Vec<u8>) -> (r: Result<(), ErrorSerialization>) {
        self.magic_numbers.io_serialize(stream)?;
        self.command_name.io_serialize(stream)?;
        self.payload_size.le_serialize(stream)?;
        self.checksum.io_serialize(stream)?;
        proof {
            assert(stream@ =~= old(stream)@ + self.io_bytes());
        }
        Ok(())
    }
}

impl DeserializableInternalOrder for MessageHeader {
    open spec fn io_parse(data: Seq<u8>) -> Option<(MessageHeaderView, Seq<u8>)> {
        if data.len() >= 4 {
            match CommandName::io_parse(data.skip(4)) {
                Some((command_name, rest)) => match <
                    u32 as DeserializableLittleEndian
                >::le_parse(rest) {
                    Some((payload_size, rest)) => {
                        if rest.len() >= 4 {
                            Some(
                                (
                                    MessageHeaderView {
                                        magic_numbers: data.take(4),
                                        command_name,
                                        payload_size,
                                        checksum: rest.take(4),
                                    },
                                    rest.skip(4),
                                ),
                            )
                        } else {
                            None
                        }
                    },
                    None => None,
                },
                None => None,
            }
        } else {
            None
        }
    }

    fn io_deserialize(stream: &mut &[u8]) -> (r: Result<MessageHeader, ErrorSerialization>) {
        let saved: &[u8] = *stream;
        let magic_numbers = match read_array::<4>(stream) {
            Some(magic_numbers) => magic_numbers,
            None => {
                return Err(ErrorSerialization::ErrorWhileReading);
            },
        };
        let command_name = match CommandName::io_deserialize(stream) {
            Ok(command_name) => command_name,
            Err(error) => {
                *stream = saved;
                return Err(error);
            },
        };
        let payload_size = match u32::le_deserialize(stream) {
            Ok(payload_size) => payload_size,
            Err(error) => {
                *stream = saved;
                return Err(error);
            },
        };
        let checksum = match read_array::<4>(stream) {
            Some(checksum) => checksum,
            None => {
                *stream = saved;
                return Err(ErrorSerialization::ErrorWhileReading);
            },
        };
        let header = MessageHeader { magic_numbers, command_name, payload_size, checksum };
        proof {
            let parsed = MessageHeader::io_parse(saved@).unwrap().0;
            assert(header.deep_view() =~= parsed);
        }
        Ok(header)
    }

    proof fn lemma_io_round_trip(value: MessageHeader, rest: Seq<u8>) {
        crate::serialization::encoding::lemma_le_bytes_of_len(value.payload_size as nat, 4);
        let after_magic = value.command_name.io_bytes() + (le_bytes_of(value.payload_size as nat, 4)
            + (value.checksum@ + rest));
        assert(value.io_bytes() + rest =~= value.magic_numbers@ + after_magic);
        let data = value.io_bytes() + rest;
        assert(data.take(4) =~= value.magic_numbers@);
        assert(data.skip(4) =~= after_magic);
        CommandName::lemma_io_round_trip(
            value.command_name,
            le_bytes_of(value.payload_size as nat, 4) + (value.checksum@ + rest),
        );
        crate::serialization::deserializable_little_endian::lemma_u32_le_round_trip(
            value.payload_size,
            value.checksum@ + rest,
        );
        assert((value.checksum@ + rest).take(4) =~= value.checksum@);
        assert((value.checksum@ + rest).skip(4) =~= rest);
        assert(MessageHeader::io_parse(data) == Some((value.deep_view(), rest))) by {
            assert(MessageHeaderView {
                magic_numbers: data.take(4),
                command_name: value.command_name,
                payload_size: value.payload_size,
                checksum: (value.checksum@ + rest).take(4),
            } =~= value.deep_view());
        }
    }
}

/// A parsed frame header consumes exactly its 24 bytes.
pub proof fn lemma_header_parse_consumes(data: Seq<u8>)
    ensures
        MessageHeader::io_parse(data) matches Some((h, rest)) ==> rest.len() == data.len() - 24
            && data.len() >= 24,
{
    match MessageHeader::io_parse(data) {
        Some((h, rest)) => {
            assert(data.len() >= 4);
            match CommandName::io_parse(data.skip(4)) {
                Some((name, after_name)) => {
                    assert(after_name.len() == data.len() - 16);
                    match <u32 as DeserializableLittleEndian>::le_parse(after_name) {
                        Some((size, after_size)) => {
                            assert(after_size.len() == data.len() - 20);
                            assert(rest.len() == data.len() - 24);
                        },
                        None => {},
                    }
                },
                None => {},
            }
        },
        None => {},
    }
}

impl MessageHeader {
    /// Reads the next frame header off the stream.
    pub fn deserialize_header(stream: &mut &[u8]) -> (r: Result<MessageHeader, ErrorSerialization>)
        ensures
            (r matches Ok(v) ==> MessageHeader::io_parse(old(stream)@) == Some(
                (v.deep_view(), final(stream)@),
            )),
            (r is Err ==> MessageHeader::io_parse(old(stream)@) is None && final(stream)@ == old(
                stream,
            )@),
    {
        MessageHeader::io_deserialize(stream)
    }
}

} // verus!
