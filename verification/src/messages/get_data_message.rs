use vstd::prelude::*;

use super::command_name::CommandName;
use super::compact_size::CompactSize;
use super::inventory_message::{InventoryVector, InventoryVectorView};
use super::message::Message;
use crate::block_structure::hash::HashType;
use crate::connections::type_identifier::TypeIdentifier;
use crate::serialization::deserializable_internal_order::{
    io_deserialize_items, items_io_parse, DeserializableInternalOrder,
};
use crate::serialization::deserializable_little_endian::DeserializableLittleEndian;
use crate::serialization::error_serialization::ErrorSerialization;
use crate::serialization::serializable_internal_order::{
    io_serialize_items, items_io_bytes, SerializableInternalOrder,
};
use crate::serialization::serializable_little_endian::SerializableLittleEndian;

verus! {

/// The request for the full data behind known inventory: here always whole
/// blocks by header hash.
#[derive(Debug, Clone)]
pub struct GetDataMessage {
    pub inventory_vectors: Vec<InventoryVector>,
}

/// The mathematical shape of a data request.
#[verifier::ext_equal]
pub ghost struct GetDataMessageView {
    pub inventory_vectors: Seq<InventoryVectorView>,
}

impl DeepView for GetDataMessage {
    type V = GetDataMessageView;

    open spec fn deep_view(&self) -> GetDataMessageView {
        GetDataMessageView { inventory_vectors: self.inventory_vectors.deep_view() }
    }
}

impl GetDataMessage {
    /// A request for the blocks with the given header hashes, in order.
    pub fn new(hashed_headers: Vec<HashType>) -> (r: GetDataMessage)
        ensures
            r.inventory_vectors@.len() == hashed_headers@.len(),
            forall|i: int|
                0 <= i < hashed_headers@.len() ==> (#[trigger] r.inventory_vectors@[i]).type_identifier
                    == TypeIdentifier::Block && r.inventory_vectors@[i].hash == hashed_headers@[i],
    {
        let mut inventory_vectors: Vec<InventoryVector> = Vec::new();
        let mut i: usize = 0;
        while i < hashed_headers.len()
            invariant
                i <= hashed_headers@.len(),
                inventory_vectors@.len() == i,
                forall|j: int|
                    0 <= j < i ==> (#[trigger] inventory_vectors@[j]).type_identifier
                        == TypeIdentifier::Block && inventory_vectors@[j].hash
                        == hashed_headers@[j],
            decreases hashed_headers@.len() - i,
        {
            inventory_vectors.push(
                InventoryVector {
                    type_identifier: TypeIdentifier::Block,
                    hash: hashed_headers[i],
                },
            );
            i = i + 1;
        }
        GetDataMessage { inventory_vectors }
    }
}

impl SerializableInternalOrder for GetDataMessage {
    open spec fn io_bytes(&self) -> Seq<u8> {
        (CompactSize { value: self.inventory_vectors@.len() as u64 }).le_bytes() + items_io_bytes(
            self.inventory_vectors@,
        )
    }

    open spec fn io_wf(&self) -> bool {
        true
    }

    fn io_serialize(&self, stream: &mut Vec<u8>) -> (r: Result<(), ErrorSerialization>) {
        CompactSize::new(self.inventory_vectors.len() as u64).le_serialize(stream)?;
        io_serialize_items(stream, &self.inventory_vectors)?;
        proof {
            assert(stream@ =~= old(stream)@ + self.io_bytes());
        }
        Ok(())
    }
}

impl DeserializableInternalOrder for GetDataMessage {
    open spec fn io_parse(data: Seq<u8>) -> Option<(GetDataMessageView, Seq<u8>)> {
        match CompactSize::le_parse(data) {
            Some((count, rest)) => match items_io_parse::<InventoryVector>(
                rest,
                count.value as nat,
            ) {
                Some((inventory_vectors, rest)) => Some(
                    (GetDataMessageView { inventory_vectors }, rest),
                ),
                None => None,
            },
            None => None,
        }
    }

    fn io_deserialize(stream: &mut &[u8]) -> (r: Result<GetDataMessage, ErrorSerialization>) {
        let saved: &[u8] = *stream;
        let count = CompactSize::le_deserialize(stream)?;
        match io_deserialize_items::<InventoryVector>(stream, count.value) {
            Ok(inventory_vectors) => Ok(GetDataMessage { inventory_vectors }),
            Err(error) => {
                *stream = saved;
                Err(error)
            },
        }
    }

    #[verifier::rlimit(100)]
    proof fn lemma_io_round_trip(value: GetDataMessage, rest: Seq<u8>) {
        assert(value.inventory_vectors@.len() <= usize::MAX) by {
            assert(value.inventory_vectors.len() == value.inventory_vectors@.len());
        }
        let count = CompactSize { value: value.inventory_vectors@.len() as u64 };
        let body = items_io_bytes(value.inventory_vectors@) + rest;
        assert(value.io_bytes() + rest =~= count.le_bytes() + body);
        super::compact_size::lemma_compact_size_round_trip(count, body);
        crate::serialization::deserializable_internal_order::lemma_items_io_round_trip::<
            InventoryVector,
        >(value.inventory_vectors@, rest);
        assert(GetDataMessage::io_parse(value.io_bytes() + rest) == Some(
            (value.deep_view(), rest),
        )) by {
            assert(Seq::new(
                value.inventory_vectors@.len(),
                |i: int| value.inventory_vectors@[i].deep_view(),
            ) =~= value.inventory_vectors.deep_view());
            assert(GetDataMessageView {
                inventory_vectors: value.inventory_vectors.deep_view(),
            } =~= value.deep_view());
        }
    }
}

impl Message for GetDataMessage {
    open spec fn spec_command() -> CommandName {
        CommandName::GetData
    }

    fn get_command_name() -> (r: CommandName) {
        CommandName::GetData
    }
}

} // verus!
