use vstd::prelude::*;

use super::deserializable_internal_order::read_array;
use super::encoding::{le_bytes_of, lemma_le_bytes_of_len};
use super::error_serialization::ErrorSerialization;
use super::serializable_big_endian::SerializableBigEndian;

verus! {

/// A value read back from its big-endian wire bytes.
pub trait DeserializableBigEndian: SerializableBigEndian + Sized + DeepView {
    /// Which value a byte stream starts with and what follows it; `None`
    /// when no value of this type starts the stream.
    spec fn be_parse(data: Seq<u8>) -> Option<(Self::V, Seq<u8>)>;

    /// Reads one value off the front of `stream`, advancing it past the
    /// value's bytes; on failure the stream is left unchanged.
    fn be_deserialize(stream: &mut &[u8]) -> (r: Result<Self, ErrorSerialization>)
        ensures
            (r matches Ok(v) ==> Self::be_parse(old(stream)@) == Some(
                (v.deep_view(), final(stream)@),
            )),
            (r is Err ==> Self::be_parse(old(stream)@) is None && final(stream)@ == old(
                stream,
            )@),
    ;
}

impl DeserializableBigEndian for u16 {
    open spec fn be_parse(data: Seq<u8>) -> Option<(u16, Seq<u8>)> {
        if data.len() >= 2 {
            Some(((data[0] * 256 + data[1]) as u16, data.skip(2)))
        } else {
            None
        }
    }

    fn be_deserialize(stream: &mut &[u8]) -> (r: Result<u16, ErrorSerialization>) {
        if stream.len() < 2 {
            return Err(ErrorSerialization::ErrorWhileReading);
        }
        let high = stream[0];
        let low = stream[1];
        let rest = vstd::slice::slice_subrange(*stream, 2, stream.len());
        *stream = rest;
        Ok((high as u16) * 256 + (low as u16))
    }
}

impl DeserializableBigEndian for [u8; 16] {
    open spec fn be_parse(data: Seq<u8>) -> Option<(Seq<u8>, Seq<u8>)> {
        if data.len() >= 16 {
            Some((data.take(16), data.skip(16)))
        } else {
            None
        }
    }

    fn be_deserialize(stream: &mut &[u8]) -> (r: Result<[u8; 16], ErrorSerialization>) {
        match read_array::<16>(stream) {
            Some(v) => {
                proof {
                    assert(v.deep_view() =~= v@);
                }
                Ok(v)
            },
            None => Err(ErrorSerialization::ErrorWhileReading),
        }
    }
}

/// A big-endian 16-bit value reads back as itself.
pub proof fn lemma_u16_be_round_trip(value: u16, rest: Seq<u8>)
    ensures
        <u16 as DeserializableBigEndian>::be_parse(value.be_bytes() + rest) == Some(
            (value, rest),
        ),
{
    lemma_le_bytes_of_len(value as nat, 2);
    let bytes = value.be_bytes();
    let data = bytes + rest;
    assert(le_bytes_of(value as nat, 2)[0] == (value as nat % 256) as u8);
    assert(le_bytes_of(value as nat, 2).drop_first() =~= le_bytes_of(value as nat / 256, 1));
    assert(le_bytes_of(value as nat, 2)[1] == ((value as nat) / 256 % 256) as u8);
    assert((value as nat) / 256 % 256 == (value as nat) / 256);
    assert(data[0] == ((value as nat) / 256) as u8);
    assert(data[1] == (value as nat % 256) as u8);
    assert(data.skip(2) =~= rest);
}

} // verus!
