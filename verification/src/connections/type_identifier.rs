use vstd::prelude::*;

use crate::serialization::deserializable_little_endian::DeserializableLittleEndian;
use crate::serialization::encoding::le_bytes_of;
use crate::serialization::error_serialization::ErrorSerialization;
use crate::serialization::serializable_little_endian::SerializableLittleEndian;

verus! {

/// What a piece of inventory names on the wire.
#[derive(Debug, Clone, Copy, PartialEq, Eq, Structural)]
pub enum TypeIdentifier {
    Error,
    TransactionId,
    Block,
    FilteredBlock,
    CompactBlock,
    WitnessTransaction,
    WitnessBlock,
    FilteredWitnessBlock,
    Unknown,
}

/// The 32-bit code of each identifier.
pub open spec fn type_identifier_value(identifier: TypeIdentifier) -> u32 {
    match identifier {
        TypeIdentifier::Error => 0x00,
        TypeIdentifier::TransactionId => 0x01,
        TypeIdentifier::Block => 0x02,
        TypeIdentifier::FilteredBlock => 0x03,
        TypeIdentifier::CompactBlock => 0x04,
        TypeIdentifier::WitnessTransaction => 0x4000_0001,
        TypeIdentifier::WitnessBlock => 0x4000_0002,
        TypeIdentifier::FilteredWitnessBlock => 0x4000_0003,
        TypeIdentifier::Unknown => 0x0201,
    }
}

/// The identifier a 32-bit code names, when it names one.
pub open spec fn type_identifier_of(value: u32) -> Option<TypeIdentifier> {
    if value == 0x00 {
        Some(TypeIdentifier::Error)
    } else if value == 0x01 {
        Some(TypeIdentifier::TransactionId)
    } else if value == 0x02 {
        Some(TypeIdentifier::Block)
    } else if value == 0x03 {
        Some(TypeIdentifier::FilteredBlock)
    } else if value == 0x04 {
        Some(TypeIdentifier::CompactBlock)
    } else if value == 0x4000_0001 {
        Some(TypeIdentifier::WitnessTransaction)
    } else if value == 0x4000_0002 {
        Some(TypeIdentifier::WitnessBlock)
    } else if value == 0x4000_0003 {
        Some(TypeIdentifier::FilteredWitnessBlock)
    } else if value == 0x0201 {
        Some(TypeIdentifier::Unknown)
    } else {
        None
    }
}

impl SerializableLittleEndian for TypeIdentifier {
    open spec fn le_bytes(&self) -> Seq<u8> {
        le_bytes_of(type_identifier_value(*self) as nat, 4)
    }

    fn le_serialize(&self, stream: &mut Vec<u8>) -> (r: Result<(), ErrorSerialization>) {
        let value: u32 = match self {
            TypeIdentifier::Error => 0x00,
            TypeIdentifier::TransactionId => 0x01,
            TypeIdentifier::Block => 0x02,
            TypeIdentifier::FilteredBlock => 0x03,
            TypeIdentifier::CompactBlock => 0x04,
            TypeIdentifier::WitnessTransaction => 0x4000_0001,
            TypeIdentifier::WitnessBlock => 0x4000_0002,
            TypeIdentifier::FilteredWitnessBlock => 0x4000_0003,
            TypeIdentifier::Unknown => 0x0201,
        };
        value.le_serialize(stream)
    }
}

impl DeserializableLittleEndian for TypeIdentifier {
    open spec fn le_parse(data: Seq<u8>) -> Option<(TypeIdentifier, Seq<u8>)> {
        match <u32 as DeserializableLittleEndian>::le_parse(data) {
            Some((value, rest)) => match type_identifier_of(value) {
                Some(identifier) => Some((identifier, rest)),
                None => None,
            },
            None => None,
        }
    }

    fn le_deserialize(stream: &mut &[u8]) -> (r: Result<TypeIdentifier, ErrorSerialization>) {
        let saved: &[u8] = *stream;
        let value = u32::le_deserialize(stream)?;
        let identifier: Option<TypeIdentifier> = if value == 0x00 {
            Some(TypeIdentifier::Error)
        } else if value == 0x01 {
            Some(TypeIdentifier::TransactionId)
        } else if value == 0x02 {
            Some(TypeIdentifier::Block)
        } else if value == 0x03 {
            Some(TypeIdentifier::FilteredBlock)
        } else if value == 0x04 {
            Some(TypeIdentifier::CompactBlock)
        } else if value == 0x4000_0001 {
            Some(TypeIdentifier::WitnessTransaction)
        } else if value == 0x4000_0002 {
            Some(TypeIdentifier::WitnessBlock)
        } else if value == 0x4000_0003 {
            Some(TypeIdentifier::FilteredWitnessBlock)
        } else if value == 0x0201 {
            Some(TypeIdentifier::Unknown)
        } else {
            None
        };
        match identifier {
            Some(identifier) => Ok(identifier),
            None => {
                *stream = saved;
                Err(ErrorSerialization::ErrorInDeserialization(
                    "no inventory type has this code".to_string(),
                ))
            },
        }
    }
}

} // verus!
