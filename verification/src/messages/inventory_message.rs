use vstd::prelude::*;

use super::command_name::CommandName;
use super::compact_size::CompactSize;
use super::message::Message;
use crate::block_structure::hash::HashType;
use crate::connections::type_identifier::{type_identifier_value, TypeIdentifier};
use crate::serialization::deserializable_internal_order::{
    io_deserialize_items, items_io_parse, read_array, DeserializableInternalOrder,
};
use crate::serialization::deserializable_little_endian::DeserializableLittleEndian;
use crate::serialization::encoding::le_bytes_of;
use crate::serialization::error_serialization::ErrorSerialization;
use crate::serialization::serializable_internal_order::{
    io_serialize_items, items_io_bytes, SerializableInternalOrder,
};
use crate::serialization::serializable_little_endian::SerializableLittleEndian;

verus! {

/// One piece of inventory: what it is and which hash names it.
#[derive(Debug, Clone, Copy, PartialEq, Eq)]
pub struct InventoryVector {
    pub type_identifier: TypeIdentifier,
    pub hash: HashType,
}

/// The mathematical shape of an inventory entry.
#[verifier::ext_equal]
pub ghost struct InventoryVectorView {
    pub type_identifier: TypeIdentifier,
    pub hash: Seq<u8>,
}

impl DeepView for InventoryVector {
    type V = InventoryVectorView;

    open spec fn deep_view(&self) -> InventoryVectorView {
        InventoryVectorView { type_identifier: self.type_identifier, hash: self.hash@ }
    }
}

impl SerializableInternalOrder for InventoryVector {
    open spec fn io_bytes(&self) -> Seq<u8> {
        self.type_identifier.le_bytes() + self.hash@
    }

    open spec fn io_wf(&self) -> bool {
        true
    }

    fn io_serialize(&self, stream: &mut Vec<u8>) -> (r: Result<(), ErrorSerialization>) {
        self.type_identifier.le_serialize(stream)?;
        self.hash.io_serialize(stream)?;
        proof {
            assert(stream@ =~= old(stream)@ + self.io_bytes());
        }
        Ok(())
    }
}

impl DeserializableInternalOrder for InventoryVector {
    open spec fn io_parse(data: Seq<u8>) -> Option<(InventoryVectorView, Seq<u8>)> {
        match TypeIdentifier::le_parse(data) {
            Some((type_identifier, rest)) => {
                if rest.len() >= 32 {
                    Some(
                        (
                            InventoryVectorView { type_identifier, hash: rest.take(32) },
                            rest.skip(32),
                        ),
                    )
                } else {
                    None
                }
            },
            None => None,
        }
    }

    fn io_deserialize(stream: &mut &[u8]) -> (r: Result<InventoryVector, ErrorSerialization>) {
        let saved: &[u8] = *stream;
        let type_identifier = TypeIdentifier::le_deserialize(stream)?;
        match read_array::<32>(stream) {
            Some(hash) => Ok(InventoryVector { type_identifier, hash }),
            None => {
                *stream = saved;
                Err(ErrorSerialization::ErrorWhileReading)
            },
        }
    }

    proof fn lemma_io_round_trip(value: InventoryVector, rest: Seq<u8>) {
        let tail = value.hash@ + rest;
        assert(value.io_bytes() + rest =~= value.type_identifier.le_bytes() + tail);
        lemma_type_identifier_round_trip(value.type_identifier, tail);
        assert(tail.take(32) =~= value.hash@);
        assert(tail.skip(32) =~= rest);
        assert(InventoryVectorView { type_identifier: value.type_identifier, hash: tail.take(32) }
            =~= value.deep_view());
    }
}

/// An inventory type identifier reads back from its four bytes as itself.
pub proof fn lemma_type_identifier_round_trip(value: TypeIdentifier, rest: Seq<u8>)
    ensures
        TypeIdentifier::le_parse(value.le_bytes() + rest) == Some((value, rest)),
{
    crate::serialization::deserializable_little_endian::lemma_u32_le_round_trip(
        type_identifier_value(value),
        rest,
    );
}

/// The inventory a peer offers.
#[derive(Debug, Clone)]
pub struct InventoryMessage {
    pub inventory_vectors: Vec<InventoryVector>,
}

/// The mathematical shape of an inventory message.
#[verifier::ext_equal]
pub ghost struct InventoryMessageView {
    pub inventory_vectors: Seq<InventoryVectorView>,
}

impl DeepView for InventoryMessage {
    type V = InventoryMessageView;

    open spec fn deep_view(&self) -> InventoryMessageView {
        InventoryMessageView { inventory_vectors: self.inventory_vectors.deep_view() }
    }
}

impl SerializableInternalOrder for InventoryMessage {
    open spec fn io_bytes(&self) -> Seq<u8> {
        (CompactSize { value: self.inventory_vectors@.len() as u64 }).le_bytes() + items_io_bytes(
            self.inventory_vectors@,
        )
    }

    open spec fn io_wf(&self) -> bool {
        true
    }

    fn io_serialize(&self, stream: &mut Vec<u8>) -> (r: Result<(), ErrorSerialization>) {
        CompactSize::new(self.inventory_vectors.len() as u64).le_serialize(stream)?;
        io_serialize_items(stream, &self.inventory_vectors)?;
        proof {
            assert(stream@ =~= old(stream)@ + self.io_bytes());
        }
        Ok(())
    }
}

impl DeserializableInternalOrder for InventoryMessage {
    open spec fn io_parse(data: Seq<u8>) -> Option<(InventoryMessageView, Seq<u8>)> {
        match CompactSize::le_parse(data) {
            Some((count, rest)) => match items_io_parse::<InventoryVector>(
                rest,
                count.value as nat,
            ) {
                Some((inventory_vectors, rest)) => Some(
                    (InventoryMessageView { inventory_vectors }, rest),
                ),
                None => None,
            },
            None => None,
        }
    }

    fn io_deserialize(stream: &mut &[u8]) -> (r: Result<InventoryMessage, ErrorSerialization>) {
        let saved: &[u8] = *stream;
        let count = CompactSize::le_deserialize(stream)?;
        match io_deserialize_items::<InventoryVector>(stream, count.value) {
            Ok(inventory_vectors) => Ok(InventoryMessage { inventory_vectors }),
            Err(error) => {
                *stream = saved;
                Err(error)
            },
        }
    }

    #[verifier::rlimit(100)]
    proof fn lemma_io_round_trip(value: InventoryMessage, rest: Seq<u8>) {
        assert(value.inventory_vectors@.len() <= usize::MAX) by {
            assert(value.inventory_vectors.len() == value.inventory_vectors@.len());
        }
        let count = CompactSize { value: value.inventory_vectors@.len() as u64 };
        let body = items_io_bytes(value.inventory_vectors@) + rest;
        assert(value.io_bytes() + rest =~= count.le_bytes() + body);
        super::compact_size::lemma_compact_size_round_trip(count, body);
        crate::serialization::deserializable_internal_order::lemma_items_io_round_trip::<
            InventoryVector,
        >(value.inventory_vectors@, rest);
        assert(InventoryMessage::io_parse(value.io_bytes() + rest) == Some(
            (value.deep_view(), rest),
        )) by {
            assert(Seq::new(
                value.inventory_vectors@.len(),
                |i: int| value.inventory_vectors@[i].deep_view(),
            ) =~= value.inventory_vectors.deep_view());
            assert(InventoryMessageView {
                inventory_vectors: value.inventory_vectors.deep_view(),
            } =~= value.deep_view());
        }
    }
}

impl Message for InventoryMessage {
    open spec fn spec_command() -> CommandName {
        CommandName::Inventory
    }

    fn get_command_name() -> (r: CommandName) {
        CommandName::Inventory
    }
}

} // verus!
