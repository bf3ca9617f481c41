use vstd::prelude::*;

use super::hash::{hashes_equal, HashType};
use crate::serialization::deserializable_internal_order::DeserializableInternalOrder;
use crate::serialization::deserializable_little_endian::DeserializableLittleEndian;
use crate::serialization::encoding::le_bytes_of;
use crate::serialization::error_serialization::ErrorSerialization;
use crate::serialization::serializable_internal_order::SerializableInternalOrder;
use crate::serialization::serializable_little_endian::SerializableLittleEndian;

verus! {

/// A reference to one output of an earlier transaction: that transaction's
/// identifier and the output's position in it.
#[derive(Debug, Clone, Copy, PartialEq, Eq)]
pub struct Outpoint {
    pub hash: HashType,
    pub index: u32,
}

/// The mathematical shape of an outpoint: hash bytes and position.
#[verifier::ext_equal]
pub ghost struct OutpointView {
    pub hash: Seq<u8>,
    pub index: u32,
}

impl DeepView for Outpoint {
    type V = OutpointView;

    open spec fn deep_view(&self) -> OutpointView {
        OutpointView { hash: self.hash@, index: self.index }
    }
}

impl Outpoint {
    pub fn new(hash: HashType, index: u32) -> (r: Outpoint)
        ensures
            r.hash == hash,
            r.index == index,
    {
        Outpoint { hash, index }
    }

    /// Whether two outpoints name the same prior output.
    pub fn same_as(&self, other: &Outpoint) -> (r: bool)
        ensures
            r == (self.deep_view() == other.deep_view()),
    {
        let r = hashes_equal(&self.hash, &other.hash) && self.index == other.index;
        proof {
            if r {
                assert(self.deep_view() =~= other.deep_view());
            }
        }
        r
    }
}

/// The wire bytes of an outpoint view.
pub open spec fn outpoint_view_bytes(v: OutpointView) -> Seq<u8> {
    v.hash + le_bytes_of(v.index as nat, 4)
}

impl SerializableInternalOrder for Outpoint {
    open spec fn io_bytes(&self) -> Seq<u8> {
        outpoint_view_bytes(self.deep_view())
    }

    open spec fn io_wf(&self) -> bool {
        true
    }

    fn io_serialize(&self, stream: &mut Vec<u8>) -> (r: Result<(), ErrorSerialization>) {
        self.hash.io_serialize(stream)?;
        self.index.le_serialize(stream)?;
        proof {
            assert(stream@ =~= old(stream)@ + self.io_bytes());
        }
        Ok(())
    }
}

impl DeserializableInternalOrder for Outpoint {
    open spec fn io_parse(data: Seq<u8>) -> Option<(OutpointView, Seq<u8>)> {
        if data.len() >= 32 {
            match <u32 as DeserializableLittleEndian>::le_parse(data.skip(32)) {
                Some((index, tail)) => Some(
                    (OutpointView { hash: data.take(32), index }, tail),
                ),
                None => None,
            }
        } else {
            None
        }
    }

    fn io_deserialize(stream: &mut &[u8]) -> (r: Result<Outpoint, ErrorSerialization>) {
        let saved: &[u8] = *stream;
        let hash = match crate::serialization::deserializable_internal_order::read_array::<
            32,
        >(stream) {
            Some(hash) => hash,
            None => {
                return Err(ErrorSerialization::ErrorWhileReading);
            },
        };
        match u32::le_deserialize(stream) {
            Ok(index) => Ok(Outpoint { hash, index }),
            Err(error) => {
                *stream = saved;
                Err(error)
            },
        }
    }

    proof fn lemma_io_round_trip(value: Outpoint, rest: Seq<u8>) {
        let data = value.io_bytes() + rest;
        crate::serialization::encoding::lemma_le_bytes_of_len(value.index as nat, 4);
        assert(data.take(32) =~= value.hash@);
        assert(data.skip(32) =~= le_bytes_of(value.index as nat, 4) + rest);
        crate::serialization::deserializable_little_endian::lemma_u32_le_round_trip(
            value.index,
            rest,
        );
        assert(Outpoint::io_parse(data) == Some((value.deep_view(), rest))) by {
            assert(OutpointView { hash: data.take(32), index: value.index } =~= value.deep_view());
        }
    }
}

} // verus!
