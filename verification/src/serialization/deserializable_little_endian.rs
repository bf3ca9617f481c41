use vstd::prelude::*;

use super::encoding::{
    le_value_of, lemma_le_bytes_of_len, lemma_le_value_of_bound, lemma_le_value_of_le_bytes_of,
    lemma_pow256_values, i32_as_unsigned, i64_as_unsigned, unsigned_as_i32, unsigned_as_i64,
};
use super::error_serialization::ErrorSerialization;
use super::primitives::read_le_bytes;
use super::serializable_little_endian::SerializableLittleEndian;

verus! {

/// A value that can be read back from its little-endian wire encoding.
pub trait DeserializableLittleEndian: SerializableLittleEndian + Sized {
    /// Which value a byte stream starts with and what follows it; `None`
    /// when no value of this type starts the stream.
    spec fn le_parse(data: Seq<u8>) -> Option<(Self, Seq<u8>)>;

    /// Reads one value off the front of `stream`, advancing it past the
    /// value's bytes; on failure the stream is left unchanged.
    fn le_deserialize(stream: &mut &[u8]) -> (r: Result<Self, ErrorSerialization>)
        ensures
            (r matches Ok(v) ==> Self::le_parse(old(stream)@) == Some((v, final(stream)@))),
            (r is Err ==> Self::le_parse(old(stream)@) is None && final(stream)@ == old(
                stream,
            )@),
    ;
}

impl DeserializableLittleEndian for u8 {
    open spec fn le_parse(data: Seq<u8>) -> Option<(u8, Seq<u8>)> {
        if data.len() >= 1 {
            Some(((le_value_of(data.take(1)) as u8), data.skip(1)))
        } else {
            None
        }
    }

    fn le_deserialize(stream: &mut &[u8]) -> (r: Result<u8, ErrorSerialization>) {
        proof {
            lemma_le_value_of_bound(stream@.take(1));
            lemma_pow256_values();
        }
        match read_le_bytes(stream, 1) {
            Some(v) => Ok(v as u8),
            None => Err(ErrorSerialization::ErrorWhileReading),
        }
    }
}

impl DeserializableLittleEndian for u16 {
    open spec fn le_parse(data: Seq<u8>) -> Option<(u16, Seq<u8>)> {
        if data.len() >= 2 {
            Some(((le_value_of(data.take(2)) as u16), data.skip(2)))
        } else {
            None
        }
    }

    fn le_deserialize(stream: &mut &[u8]) -> (r: Result<u16, ErrorSerialization>) {
        proof {
            lemma_le_value_of_bound(stream@.take(2));
            lemma_pow256_values();
        }
        match read_le_bytes(stream, 2) {
            Some(v) => Ok(v as u16),
            None => Err(ErrorSerialization::ErrorWhileReading),
        }
    }
}

impl DeserializableLittleEndian for u32 {
    open spec fn le_parse(data: Seq<u8>) -> Option<(u32, Seq<u8>)> {
        if data.len() >= 4 {
            Some(((le_value_of(data.take(4)) as u32), data.skip(4)))
        } else {
            None
        }
    }

    fn le_deserialize(stream: &mut &[u8]) -> (r: Result<u32, ErrorSerialization>) {
        proof {
            lemma_le_value_of_bound(stream@.take(4));
            lemma_pow256_values();
        }
        match read_le_bytes(stream, 4) {
            Some(v) => Ok(v as u32),
            None => Err(ErrorSerialization::ErrorWhileReading),
        }
    }
}

impl DeserializableLittleEndian for u64 {
    open spec fn le_parse(data: Seq<u8>) -> Option<(u64, Seq<u8>)> {
        if data.len() >= 8 {
            Some(((le_value_of(data.take(8)) as u64), data.skip(8)))
        } else {
            None
        }
    }

    fn le_deserialize(stream: &mut &[u8]) -> (r: Result<u64, ErrorSerialization>) {
        proof {
            lemma_le_value_of_bound(stream@.take(8));
            lemma_pow256_values();
        }
        match read_le_bytes(stream, 8) {
            Some(v) => Ok(v),
            None => Err(ErrorSerialization::ErrorWhileReading),
        }
    }
}

impl DeserializableLittleEndian for i32 {
    open spec fn le_parse(data: Seq<u8>) -> Option<(i32, Seq<u8>)> {
        if data.len() >= 4 {
            Some((unsigned_as_i32(le_value_of(data.take(4))), data.skip(4)))
        } else {
            None
        }
    }

    fn le_deserialize(stream: &mut &[u8]) -> (r: Result<i32, ErrorSerialization>) {
        proof {
            lemma_le_value_of_bound(stream@.take(4));
            lemma_pow256_values();
        }
        match read_le_bytes(stream, 4) {
            Some(v) => {
                let signed: i32 = if v < 0x8000_0000 {
                    v as i32
                } else {
                    (((v as i64) - 0x1_0000_0000) as i32)
                };
                Ok(signed)
            },
            None => Err(ErrorSerialization::ErrorWhileReading),
        }
    }
}

impl DeserializableLittleEndian for i64 {
    open spec fn le_parse(data: Seq<u8>) -> Option<(i64, Seq<u8>)> {
        if data.len() >= 8 {
            Some((unsigned_as_i64(le_value_of(data.take(8))), data.skip(8)))
        } else {
            None
        }
    }

    fn le_deserialize(stream: &mut &[u8]) -> (r: Result<i64, ErrorSerialization>) {
        proof {
            lemma_le_value_of_bound(stream@.take(8));
            lemma_pow256_values();
        }
        match read_le_bytes(stream, 8) {
            Some(v) => {
                let signed: i64 = if v < 0x8000_0000_0000_0000 {
                    v as i64
                } else {
                    (((v as i128) - 0x1_0000_0000_0000_0000) as i64)
                };
                Ok(signed)
            },
            None => Err(ErrorSerialization::ErrorWhileReading),
        }
    }
}

impl DeserializableLittleEndian for bool {
    open spec fn le_parse(data: Seq<u8>) -> Option<(bool, Seq<u8>)> {
        if data.len() >= 1 {
            Some((data[0] != 0, data.skip(1)))
        } else {
            None
        }
    }

    fn le_deserialize(stream: &mut &[u8]) -> (r: Result<bool, ErrorSerialization>) {
        proof {
            if stream@.len() >= 1 {
                let taken = stream@.take(1);
                assert(taken.drop_first() =~= Seq::<u8>::empty());
                assert(le_value_of(taken.drop_first()) == 0);
                assert(le_value_of(taken) == stream@[0]);
            }
        }
        match read_le_bytes(stream, 1) {
            Some(v) => Ok(v != 0),
            None => Err(ErrorSerialization::ErrorWhileReading),
        }
    }
}

/// Reading back the bytes of an unsigned little-endian value returns the
/// value: stated here once for 32-bit values, which the wire format uses
/// most.
pub proof fn lemma_u32_le_round_trip(value: u32, rest: Seq<u8>)
    ensures
        <u32 as DeserializableLittleEndian>::le_parse(value.le_bytes() + rest) == Some(
            (value, rest),
        ),
{
    lemma_pow256_values();
    lemma_le_int_round_trip_support(value as nat, 4, rest);
    assert((value.le_bytes() + rest).take(4) =~= value.le_bytes());
    assert((value.le_bytes() + rest).skip(4) =~= rest);
}

pub proof fn lemma_u64_le_round_trip(value: u64, rest: Seq<u8>)
    ensures
        <u64 as DeserializableLittleEndian>::le_parse(value.le_bytes() + rest) == Some(
            (value, rest),
        ),
{
    lemma_pow256_values();
    lemma_le_int_round_trip_support(value as nat, 8, rest);
    assert((value.le_bytes() + rest).take(8) =~= value.le_bytes());
    assert((value.le_bytes() + rest).skip(8) =~= rest);
}

pub proof fn lemma_u16_le_round_trip(value: u16, rest: Seq<u8>)
    ensures
        <u16 as DeserializableLittleEndian>::le_parse(value.le_bytes() + rest) == Some(
            (value, rest),
        ),
{
    lemma_pow256_values();
    lemma_le_int_round_trip_support(value as nat, 2, rest);
    assert((value.le_bytes() + rest).take(2) =~= value.le_bytes());
    assert((value.le_bytes() + rest).skip(2) =~= rest);
}

pub proof fn lemma_u8_le_round_trip(value: u8, rest: Seq<u8>)
    ensures
        <u8 as DeserializableLittleEndian>::le_parse(value.le_bytes() + rest) == Some(
            (value, rest),
        ),
{
    lemma_pow256_values();
    lemma_le_int_round_trip_support(value as nat, 1, rest);
    assert((value.le_bytes() + rest).take(1) =~= value.le_bytes());
    assert((value.le_bytes() + rest).skip(1) =~= rest);
}

pub proof fn lemma_i32_le_round_trip(value: i32, rest: Seq<u8>)
    ensures
        <i32 as DeserializableLittleEndian>::le_parse(value.le_bytes() + rest) == Some(
            (value, rest),
        ),
{
    lemma_pow256_values();
    lemma_le_int_round_trip_support(i32_as_unsigned(value), 4, rest);
    assert((value.le_bytes() + rest).take(4) =~= value.le_bytes());
    assert((value.le_bytes() + rest).skip(4) =~= rest);
}

pub proof fn lemma_i64_le_round_trip(value: i64, rest: Seq<u8>)
    ensures
        <i64 as DeserializableLittleEndian>::le_parse(value.le_bytes() + rest) == Some(
            (value, rest),
        ),
{
    lemma_pow256_values();
    lemma_le_int_round_trip_support(i64_as_unsigned(value), 8, rest);
    assert((value.le_bytes() + rest).take(8) =~= value.le_bytes());
    assert((value.le_bytes() + rest).skip(8) =~= rest);
}

/// The value encoded on `width` bytes reads back as itself when it fits.
proof fn lemma_le_int_round_trip_support(value: nat, width: nat, rest: Seq<u8>)
    requires
        width <= 8,
        value < super::encoding::pow256(width),
    ensures
        le_value_of(super::encoding::le_bytes_of(value, width).add(rest).take(width as int))
            == value,
        super::encoding::le_bytes_of(value, width).len() == width,
{
    lemma_le_bytes_of_len(value, width);
    let bytes = super::encoding::le_bytes_of(value, width);
    assert(bytes.add(rest).take(width as int) =~= bytes);
    lemma_le_value_of_le_bytes_of(value, width);
}

} // verus!
