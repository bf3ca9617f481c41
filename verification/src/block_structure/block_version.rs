use vstd::prelude::*;

use crate::serialization::deserializable_little_endian::DeserializableLittleEndian;
use crate::serialization::error_serialization::ErrorSerialization;
use crate::serialization::serializable_little_endian::SerializableLittleEndian;

verus! {

/// A block's version field: a plain signed 32-bit number on the wire.
#[derive(Debug, Clone, Copy, PartialEq, Eq, Structural)]
pub struct BlockVersion {
    pub value: i32,
}

impl BlockVersion {
    pub fn version(value: i32) -> (r: BlockVersion)
        ensures
            r.value == value,
    {
        BlockVersion { value }
    }
}

impl SerializableLittleEndian for BlockVersion {
    open spec fn le_bytes(&self) -> Seq<u8> {
        self.value.le_bytes()
    }

    fn le_serialize(&self, stream: &mut Vec<u8>) -> (r: Result<(), ErrorSerialization>) {
        self.value.le_serialize(stream)
    }
}

impl DeserializableLittleEndian for BlockVersion {
    open spec fn le_parse(data: Seq<u8>) -> Option<(BlockVersion, Seq<u8>)> {
        match <i32 as DeserializableLittleEndian>::le_parse(data) {
            Some((value, rest)) => Some((BlockVersion { value }, rest)),
            None => None,
        }
    }

    fn le_deserialize(stream: &mut &[u8]) -> (r: Result<BlockVersion, ErrorSerialization>) {
        match i32::le_deserialize(stream) {
            Ok(value) => Ok(BlockVersion { value }),
            Err(error) => Err(error),
        }
    }
}

} // verus!
