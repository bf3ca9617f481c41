use vstd::prelude::*;

use crate::serialization::deserializable_little_endian::DeserializableLittleEndian;
use crate::serialization::encoding::{
    le_bytes_of, le_value_of, lemma_le_bytes_of_len, lemma_le_value_of_bound,
    lemma_le_value_of_le_bytes_of, lemma_pow256_values,
};
use crate::serialization::error_serialization::ErrorSerialization;
use crate::serialization::primitives::{read_le_bytes, write_le_bytes};
use crate::serialization::serializable_little_endian::SerializableLittleEndian;

verus! {

/// Bitcoin's variable-length integer: one byte below 0xFD, otherwise a marker
/// byte followed by 2, 4 or 8 little-endian bytes.
#[derive(Debug, Clone, Copy, PartialEq, Eq, Structural)]
pub struct CompactSize {
    pub value: u64,
}

impl CompactSize {
    pub fn new(value: u64) -> (r: CompactSize)
        ensures
            r.value == value,
    {
        CompactSize { value }
    }
}

impl SerializableLittleEndian for CompactSize {
    open spec fn le_bytes(&self) -> Seq<u8> {
        if self.value < 0xFD {
            seq![self.value as u8]
        } else if self.value <= 0xFFFF {
            seq![0xFDu8] + le_bytes_of(self.value as nat, 2)
        } else if self.value <= 0xFFFF_FFFF {
            seq![0xFEu8] + le_bytes_of(self.value as nat, 4)
        } else {
            seq![0xFFu8] + le_bytes_of(self.value as nat, 8)
        }
    }

    fn le_serialize(&self, stream: &mut Vec<u8>) -> (r: Result<(), ErrorSerialization>) {
        if self.value < 0xFD {
            stream.push(self.value as u8);
            proof {
                assert(stream@ =~= old(stream)@ + self.le_bytes());
            }
        } else if self.value <= 0xFFFF {
            stream.push(0xFD);
            write_le_bytes(stream, self.value, 2);
            proof {
                assert(stream@ =~= old(stream)@ + self.le_bytes());
            }
        } else if self.value <= 0xFFFF_FFFF {
            stream.push(0xFE);
            write_le_bytes(stream, self.value, 4);
            proof {
                assert(stream@ =~= old(stream)@ + self.le_bytes());
            }
        } else {
            stream.push(0xFF);
            write_le_bytes(stream, self.value, 8);
            proof {
                assert(stream@ =~= old(stream)@ + self.le_bytes());
            }
        }
        Ok(())
    }
}

impl DeserializableLittleEndian for CompactSize {
    open spec fn le_parse(data: Seq<u8>) -> Option<(CompactSize, Seq<u8>)> {
        if data.len() == 0 {
            None
        } else if data[0] == 0xFD {
            if data.len() >= 3 {
                Some(
                    (
                        CompactSize { value: le_value_of(data.subrange(1, 3)) as u64 },
                        data.skip(3),
                    ),
                )
            } else {
                None
            }
        } else if data[0] == 0xFE {
            if data.len() >= 5 {
                Some(
                    (
                        CompactSize { value: le_value_of(data.subrange(1, 5)) as u64 },
                        data.skip(5),
                    ),
                )
            } else {
                None
            }
        } else if data[0] == 0xFF {
            if data.len() >= 9 {
                Some(
                    (
                        CompactSize { value: le_value_of(data.subrange(1, 9)) as u64 },
                        data.skip(9),
                    ),
                )
            } else {
                None
            }
        } else {
            Some((CompactSize { value: data[0] as u64 }, data.skip(1)))
        }
    }

    fn le_deserialize(stream: &mut &[u8]) -> (r: Result<CompactSize, ErrorSerialization>) {
        let saved: &[u8] = *stream;
        if stream.len() == 0 {
            return Err(ErrorSerialization::ErrorWhileReading);
        }
        let marker = stream[0];
        let rest = vstd::slice::slice_subrange(*stream, 1, stream.len());
        *stream = rest;
        let width: usize = if marker == 0xFD {
            2
        } else if marker == 0xFE {
            4
        } else if marker == 0xFF {
            8
        } else {
            proof {
                assert(saved@.skip(1) == stream@);
            }
            return Ok(CompactSize { value: marker as u64 });
        };
        proof {
            lemma_le_value_of_bound(stream@.take(width as int));
            lemma_pow256_values();
        }
        match read_le_bytes(stream, width) {
            Some(v) => {
                proof {
                    assert(saved@.skip(1).take(width as int) =~= saved@.subrange(
                        1,
                        width as int + 1,
                    ));
                    assert(saved@.skip(1).skip(width as int) =~= saved@.skip(width as int + 1));
                }
                Ok(CompactSize { value: v })
            },
            None => {
                *stream = saved;
                Err(ErrorSerialization::ErrorWhileReading)
            },
        }
    }
}

/// Decoding the encoding of any compact size gives the value back, and the
/// encoding takes exactly 1, 3, 5 or 9 bytes.
pub proof fn lemma_compact_size_round_trip(value: CompactSize, rest: Seq<u8>)
    ensures
        <CompactSize as DeserializableLittleEndian>::le_parse(value.le_bytes() + rest) == Some(
            (value, rest),
        ),
        value.le_bytes().len() == 1 || value.le_bytes().len() == 3 || value.le_bytes().len() == 5
            || value.le_bytes().len() == 9,
{
    lemma_pow256_values();
    let bytes = value.le_bytes();
    let data = bytes + rest;
    if value.value < 0xFD {
        assert(data.skip(1) =~= rest);
    } else if value.value <= 0xFFFF {
        lemma_le_bytes_of_len(value.value as nat, 2);
        lemma_le_value_of_le_bytes_of(value.value as nat, 2);
        assert(data[0] == 0xFD);
        assert(data.subrange(1, 3) =~= le_bytes_of(value.value as nat, 2));
        assert(data.skip(3) =~= rest);
    } else if value.value <= 0xFFFF_FFFF {
        lemma_le_bytes_of_len(value.value as nat, 4);
        lemma_le_value_of_le_bytes_of(value.value as nat, 4);
        assert(data[0] == 0xFE);
        assert(data.subrange(1, 5) =~= le_bytes_of(value.value as nat, 4));
        assert(data.skip(5) =~= rest);
    } else {
        lemma_le_bytes_of_len(value.value as nat, 8);
        lemma_le_value_of_le_bytes_of(value.value as nat, 8);
        assert(data[0] == 0xFF);
        assert(data.subrange(1, 9) =~= le_bytes_of(value.value as nat, 8));
        assert(data.skip(9) =~= rest);
    }
}

} // verus!
