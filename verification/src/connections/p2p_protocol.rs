use vstd::prelude::*;

use crate::serialization::deserializable_little_endian::DeserializableLittleEndian;
use crate::serialization::encoding::{i32_as_unsigned, le_bytes_of};
use crate::serialization::error_serialization::ErrorSerialization;
use crate::serialization::serializable_little_endian::SerializableLittleEndian;

verus! {

/// The peer-to-peer protocol versions the node can speak.
#[derive(Debug, Clone, Copy, PartialEq, Eq, Structural)]
pub enum ProtocolVersionP2P {
    V70016,
    V70015,
    V70014,
    V70013,
    V70012,
    V70011,
    V70002,
    V70001,
    V60002,
    V60001,
    V60000,
    V31800,
    V31402,
    V311,
    V209,
    V106,
}

/// The number each version puts on the wire.
pub open spec fn protocol_version_value(version: ProtocolVersionP2P) -> i32 {
    match version {
        ProtocolVersionP2P::V70016 => 70016,
        ProtocolVersionP2P::V70015 => 70015,
        ProtocolVersionP2P::V70014 => 70014,
        ProtocolVersionP2P::V70013 => 70013,
        ProtocolVersionP2P::V70012 => 70012,
        ProtocolVersionP2P::V70011 => 70011,
        ProtocolVersionP2P::V70002 => 70002,
        ProtocolVersionP2P::V70001 => 70001,
        ProtocolVersionP2P::V60002 => 60002,
        ProtocolVersionP2P::V60001 => 60001,
        ProtocolVersionP2P::V60000 => 60000,
        ProtocolVersionP2P::V31800 => 31800,
        ProtocolVersionP2P::V31402 => 31402,
        ProtocolVersionP2P::V311 => 311,
        ProtocolVersionP2P::V209 => 209,
        ProtocolVersionP2P::V106 => 106,
    }
}

/// The version a wire number names, when it names one.
pub open spec fn protocol_version_of(value: i32) -> Option<ProtocolVersionP2P> {
    if value == 70016 {
        Some(ProtocolVersionP2P::V70016)
    } else if value == 70015 {
        Some(ProtocolVersionP2P::V70015)
    } else if value == 70014 {
        Some(ProtocolVersionP2P::V70014)
    } else if value == 70013 {
        Some(ProtocolVersionP2P::V70013)
    } else if value == 70012 {
        Some(ProtocolVersionP2P::V70012)
    } else if value == 70011 {
        Some(ProtocolVersionP2P::V70011)
    } else if value == 70002 {
        Some(ProtocolVersionP2P::V70002)
    } else if value == 70001 {
        Some(ProtocolVersionP2P::V70001)
    } else if value == 60002 {
        Some(ProtocolVersionP2P::V60002)
    } else if value == 60001 {
        Some(ProtocolVersionP2P::V60001)
    } else if value == 60000 {
        Some(ProtocolVersionP2P::V60000)
    } else if value == 31800 {
        Some(ProtocolVersionP2P::V31800)
    } else if value == 31402 {
        Some(ProtocolVersionP2P::V31402)
    } else if value == 311 {
        Some(ProtocolVersionP2P::V311)
    } else if value == 209 {
        Some(ProtocolVersionP2P::V209)
    } else if value == 106 {
        Some(ProtocolVersionP2P::V106)
    } else {
        None
    }
}

impl ProtocolVersionP2P {
    /// The number this version puts on the wire.
    pub fn to_i32(&self) -> (r: i32)
        ensures
            r == protocol_version_value(*self),
    {
        match self {
            ProtocolVersionP2P::V70016 => 70016,
            ProtocolVersionP2P::V70015 => 70015,
            ProtocolVersionP2P::V70014 => 70014,
            ProtocolVersionP2P::V70013 => 70013,
            ProtocolVersionP2P::V70012 => 70012,
            ProtocolVersionP2P::V70011 => 70011,
            ProtocolVersionP2P::V70002 => 70002,
            ProtocolVersionP2P::V70001 => 70001,
            ProtocolVersionP2P::V60002 => 60002,
            ProtocolVersionP2P::V60001 => 60001,
            ProtocolVersionP2P::V60000 => 60000,
            ProtocolVersionP2P::V31800 => 31800,
            ProtocolVersionP2P::V31402 => 31402,
            ProtocolVersionP2P::V311 => 311,
            ProtocolVersionP2P::V209 => 209,
            ProtocolVersionP2P::V106 => 106,
        }
    }

    /// The version a wire number names; an unknown number is refused.
    pub fn from_i32(value: i32) -> (r: Result<ProtocolVersionP2P, ErrorSerialization>)
        ensures
            (r matches Ok(v) ==> protocol_version_of(value) == Some(v)),
            (r is Err ==> protocol_version_of(value) is None),
    {
        if value == 70016 {
            Ok(ProtocolVersionP2P::V70016)
        } else if value == 70015 {
            Ok(ProtocolVersionP2P::V70015)
        } else if value == 70014 {
            Ok(ProtocolVersionP2P::V70014)
        } else if value == 70013 {
            Ok(ProtocolVersionP2P::V70013)
        } else if value == 70012 {
            Ok(ProtocolVersionP2P::V70012)
        } else if value == 70011 {
            Ok(ProtocolVersionP2P::V70011)
        } else if value == 70002 {
            Ok(ProtocolVersionP2P::V70002)
        } else if value == 70001 {
            Ok(ProtocolVersionP2P::V70001)
        } else if value == 60002 {
            Ok(ProtocolVersionP2P::V60002)
        } else if value == 60001 {
            Ok(ProtocolVersionP2P::V60001)
        } else if value == 60000 {
            Ok(ProtocolVersionP2P::V60000)
        } else if value == 31800 {
            Ok(ProtocolVersionP2P::V31800)
        } else if value == 31402 {
            Ok(ProtocolVersionP2P::V31402)
        } else if value == 311 {
            Ok(ProtocolVersionP2P::V311)
        } else if value == 209 {
            Ok(ProtocolVersionP2P::V209)
        } else if value == 106 {
            Ok(ProtocolVersionP2P::V106)
        } else {
            Err(ErrorSerialization::ErrorInDeserialization(
                "no protocol version has this number".to_string(),
            ))
        }
    }
}

impl SerializableLittleEndian for ProtocolVersionP2P {
    open spec fn le_bytes(&self) -> Seq<u8> {
        le_bytes_of(i32_as_unsigned(protocol_version_value(*self)), 4)
    }

    fn le_serialize(&self, stream: &mut Vec<u8>) -> (r: Result<(), ErrorSerialization>) {
        let value = self.to_i32();
        value.le_serialize(stream)
    }
}

impl DeserializableLittleEndian for ProtocolVersionP2P {
    open spec fn le_parse(data: Seq<u8>) -> Option<(ProtocolVersionP2P, Seq<u8>)> {
        match <i32 as DeserializableLittleEndian>::le_parse(data) {
            Some((value, rest)) => match protocol_version_of(value) {
                Some(version) => Some((version, rest)),
                None => None,
            },
            None => None,
        }
    }

    fn le_deserialize(stream: &mut &[u8]) -> (r: Result<ProtocolVersionP2P, ErrorSerialization>) {
        let saved: &[u8] = *stream;
        let value = i32::le_deserialize(stream)?;
        match ProtocolVersionP2P::from_i32(value) {
            Ok(version) => Ok(version),
            Err(error) => {
                *stream = saved;
                Err(error)
            },
        }
    }
}

/// A protocol version reads back from its four little-endian bytes as
/// itself.
pub proof fn lemma_protocol_version_le_round_trip(value: ProtocolVersionP2P, rest: Seq<u8>)
    ensures
        ProtocolVersionP2P::le_parse(value.le_bytes() + rest) == Some((value, rest)),
{
    crate::serialization::deserializable_little_endian::lemma_i32_le_round_trip(
        protocol_version_value(value),
        rest,
    );
}

} // verus!
