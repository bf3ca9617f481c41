use vstd::prelude::*;

use super::command_name::CommandName;
use super::compact_size::CompactSize;
use super::message::Message;
use crate::block_structure::hash::HashType;
use crate::connections::p2p_protocol::ProtocolVersionP2P;
use crate::serialization::deserializable_internal_order::{
    io_deserialize_items, items_io_parse, read_array, DeserializableInternalOrder,
};
use crate::serialization::deserializable_little_endian::DeserializableLittleEndian;
use crate::serialization::error_serialization::ErrorSerialization;
use crate::serialization::serializable_internal_order::{
    io_serialize_items, items_io_bytes, SerializableInternalOrder,
};
use crate::serialization::serializable_little_endian::SerializableLittleEndian;

verus! {

/// The request for headers after the newest locator hash the peer knows,
/// up to the stop hash; an all-zero stop asks for as many as possible.
#[derive(Debug, Clone)]
pub struct GetHeadersMessage {
    pub magic_numbers: [u8; 4],
    pub version: ProtocolVersionP2P,
    pub header_locator_hashes: Vec<HashType>,
    pub stop_hash: HashType,
}

/// The mathematical shape of a headers request: the payload alone, since
/// the magic bytes travel in the frame, not in the payload.
#[verifier::ext_equal]
pub ghost struct GetHeadersMessageView {
    pub version: ProtocolVersionP2P,
    pub header_locator_hashes: Seq<Seq<u8>>,
    pub stop_hash: Seq<u8>,
}

impl DeepView for GetHeadersMessage {
    type V = GetHeadersMessageView;

    open spec fn deep_view(&self) -> GetHeadersMessageView {
        GetHeadersMessageView {
            version: self.version,
            header_locator_hashes: self.header_locator_hashes.deep_view(),
            stop_hash: self.stop_hash@,
        }
    }
}

impl GetHeadersMessage {
    pub fn new(
        magic_bytes: [u8; 4],
        version: ProtocolVersionP2P,
        header_locator_hashes: Vec<HashType>,
        stop_hash: HashType,
    ) -> (r: GetHeadersMessage)
        ensures
            r.magic_numbers == magic_bytes,
            r.version == version,
            r.header_locator_hashes == header_locator_hashes,
            r.stop_hash == stop_hash,
    {
        GetHeadersMessage { magic_numbers: magic_bytes, version, header_locator_hashes, stop_hash }
    }

    /// Writes the payload alone: version, locator count, locators, stop.
    pub fn serialize_payload(&self, stream: &mut Vec<u8>) -> (r: Result<(), ErrorSerialization>)
        ensures
            r is Ok,
            final(stream)@ == old(stream)@ + self.io_bytes(),
    {
        self.io_serialize(stream)
    }
}

/// The concatenated locator hashes take 32 bytes each.
pub proof fn lemma_locator_bytes_len(hashes: Seq<crate::block_structure::hash::HashType>)
    ensures
        items_io_bytes(hashes).len() == 32 * hashes.len(),
    decreases hashes.len(),
{
    broadcast use vstd::array::group_array_axioms;

    if hashes.len() > 0 {
        lemma_locator_bytes_len(hashes.drop_first());
        assert(hashes[0].io_bytes().len() == 32);
    }
}

/// A headers request's payload is at most 45 bytes besides its 32-byte
/// locators: four version bytes, at most nine count bytes, and the stop.
pub proof fn lemma_get_headers_bytes_len(message: GetHeadersMessage)
    ensures
        message.io_bytes().len() <= 45 + 32 * message.header_locator_hashes@.len(),
{
    broadcast use vstd::array::group_array_axioms;

    crate::serialization::encoding::lemma_le_bytes_of_len(
        crate::serialization::encoding::i32_as_unsigned(
            crate::connections::p2p_protocol::protocol_version_value(message.version),
        ),
        4,
    );
    let count = CompactSize { value: message.header_locator_hashes@.len() as u64 };
    assert(count.le_bytes().len() <= 9) by {
        crate::serialization::encoding::lemma_le_bytes_of_len(count.value as nat, 2);
        crate::serialization::encoding::lemma_le_bytes_of_len(count.value as nat, 4);
        crate::serialization::encoding::lemma_le_bytes_of_len(count.value as nat, 8);
    }
    lemma_locator_bytes_len(message.header_locator_hashes@);
}

impl SerializableInternalOrder for GetHeadersMessage {
    open spec fn io_bytes(&self) -> Seq<u8> {
        self.version.le_bytes() + (CompactSize {
            value: self.header_locator_hashes@.len() as u64,
        }).le_bytes() + items_io_bytes(self.header_locator_hashes@) + self.stop_hash@
    }

    open spec fn io_wf(&self) -> bool {
        true
    }

    fn io_serialize(&self, stream: &mut Vec<u8>) -> (r: Result<(), ErrorSerialization>) {
        self.version.le_serialize(stream)?;
        CompactSize::new(self.header_locator_hashes.len() as u64).le_serialize(stream)?;
        io_serialize_items(stream, &self.header_locator_hashes)?;
        self.stop_hash.io_serialize(stream)?;
        proof {
            assert(stream@ =~= old(stream)@ + self.io_bytes());
        }
        Ok(())
    }
}

impl DeserializableInternalOrder for GetHeadersMessage {
    open spec fn io_parse(data: Seq<u8>) -> Option<(GetHeadersMessageView, Seq<u8>)> {
        match ProtocolVersionP2P::le_parse(data) {
            Some((version, rest)) => match CompactSize::le_parse(rest) {
                Some((count, rest)) => match items_io_parse::<HashType>(
                    rest,
                    count.value as nat,
                ) {
                    Some((header_locator_hashes, rest)) => {
                        if rest.len() >= 32 {
                            Some(
                                (
                                    GetHeadersMessageView {
                                        version,
                                        header_locator_hashes,
                                        stop_hash: rest.take(32),
                                    },
                                    rest.skip(32),
                                ),
                            )
                        } else {
                            None
                        }
                    },
                    None => None,
                },
                None => None,
            },
            None => None,
        }
    }

    fn io_deserialize(stream: &mut &[u8]) -> (r: Result<GetHeadersMessage, ErrorSerialization>) {
        let saved: &[u8] = *stream;
        let version = ProtocolVersionP2P::le_deserialize(stream)?;
        let count = match CompactSize::le_deserialize(stream) {
            Ok(count) => count,
            Err(error) => {
                *stream = saved;
                return Err(error);
            },
        };
        let header_locator_hashes = match io_deserialize_items::<HashType>(stream, count.value) {
            Ok(header_locator_hashes) => header_locator_hashes,
            Err(error) => {
                *stream = saved;
                return Err(error);
            },
        };
        match read_array::<32>(stream) {
            Some(stop_hash) => {
                let message = GetHeadersMessage {
                    magic_numbers: [0u8, 0u8, 0u8, 0u8],
                    version,
                    header_locator_hashes,
                    stop_hash,
                };
                proof {
                    let parsed = GetHeadersMessage::io_parse(saved@).unwrap().0;
                    assert(message.deep_view() =~= parsed);
                }
                Ok(message)
            },
            None => {
                *stream = saved;
                Err(ErrorSerialization::ErrorWhileReading)
            },
        }
    }

    #[verifier::rlimit(100)]
    proof fn lemma_io_round_trip(value: GetHeadersMessage, rest: Seq<u8>) {
        assert(value.header_locator_hashes@.len() <= usize::MAX) by {
            assert(value.header_locator_hashes.len() == value.header_locator_hashes@.len());
        }
        let count = CompactSize { value: value.header_locator_hashes@.len() as u64 };
        let tail = value.stop_hash@ + rest;
        let body = items_io_bytes(value.header_locator_hashes@) + tail;
        let after_version = count.le_bytes() + body;
        assert(value.io_bytes() + rest =~= value.version.le_bytes() + after_version);
        crate::connections::p2p_protocol::lemma_protocol_version_le_round_trip(
            value.version,
            after_version,
        );
        super::compact_size::lemma_compact_size_round_trip(count, body);
        crate::serialization::deserializable_internal_order::lemma_items_io_round_trip::<
            HashType,
        >(value.header_locator_hashes@, tail);
        assert(tail.take(32) =~= value.stop_hash@);
        assert(tail.skip(32) =~= rest);
        assert(GetHeadersMessage::io_parse(value.io_bytes() + rest) == Some(
            (value.deep_view(), rest),
        )) by {
            assert(Seq::new(
                value.header_locator_hashes@.len(),
                |i: int| value.header_locator_hashes@[i].deep_view(),
            ) =~= value.header_locator_hashes.deep_view());
            assert(GetHeadersMessageView {
                version: value.version,
                header_locator_hashes: value.header_locator_hashes.deep_view(),
                stop_hash: tail.take(32),
            } =~= value.deep_view());
        }
    }
}

impl Message for GetHeadersMessage {
    open spec fn spec_command() -> CommandName {
        CommandName::GetHeaders
    }

    fn get_command_name() -> (r: CommandName) {
        CommandName::GetHeaders
    }
}

} // verus!
