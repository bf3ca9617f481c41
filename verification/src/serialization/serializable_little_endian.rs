use vstd::prelude::*;

use super::encoding::{i32_as_unsigned, i64_as_unsigned, le_bytes_of};
use super::error_serialization::ErrorSerialization;
use super::primitives::write_le_bytes;

verus! {

/// A value with a little-endian wire encoding.
pub trait SerializableLittleEndian {
    /// The little-endian wire bytes of this value.
    spec fn le_bytes(&self) -> Seq<u8>;

    /// Appends the value's little-endian bytes to `stream`.
    fn le_serialize(&self, stream: &mut Vec<u8>) -> (r: Result<(), ErrorSerialization>)
        ensures
            r is Ok,
            final(stream)@ == old(stream)@ + self.le_bytes(),
    ;
}

impl SerializableLittleEndian for u8 {
    open spec fn le_bytes(&self) -> Seq<u8> {
        le_bytes_of(*self as nat, 1)
    }

    fn le_serialize(&self, stream: &mut Vec<u8>) -> (r: Result<(), ErrorSerialization>) {
        proof {
            assert((*self as u64) as nat == *self as nat);
        }
        write_le_bytes(stream, *self as u64, 1);
        Ok(())
    }
}

impl SerializableLittleEndian for u16 {
    open spec fn le_bytes(&self) -> Seq<u8> {
        le_bytes_of(*self as nat, 2)
    }

    fn le_serialize(&self, stream: &mut Vec<u8>) -> (r: Result<(), ErrorSerialization>) {
        proof {
            assert((*self as u64) as nat == *self as nat);
        }
        write_le_bytes(stream, *self as u64, 2);
        Ok(())
    }
}

impl SerializableLittleEndian for u32 {
    open spec fn le_bytes(&self) -> Seq<u8> {
        le_bytes_of(*self as nat, 4)
    }

    fn le_serialize(&self, stream: &mut Vec<u8>) -> (r: Result<(), ErrorSerialization>) {
        proof {
            assert((*self as u64) as nat == *self as nat);
        }
        write_le_bytes(stream, *self as u64, 4);
        proof {
            assert(stream@ =~= old(stream)@ + self.le_bytes());
        }
        Ok(())
    }
}

impl SerializableLittleEndian for u64 {
    open spec fn le_bytes(&self) -> Seq<u8> {
        le_bytes_of(*self as nat, 8)
    }

    fn le_serialize(&self, stream: &mut Vec<u8>) -> (r: Result<(), ErrorSerialization>) {
        write_le_bytes(stream, *self, 8);
        Ok(())
    }
}

impl SerializableLittleEndian for i32 {
    open spec fn le_bytes(&self) -> Seq<u8> {
        le_bytes_of(i32_as_unsigned(*self), 4)
    }

    fn le_serialize(&self, stream: &mut Vec<u8>) -> (r: Result<(), ErrorSerialization>) {
        let unsigned: u64 = if *self >= 0 {
            *self as u64
        } else {
            (((*self as i64) + 0x1_0000_0000) as u64)
        };
        proof {
            assert(unsigned as nat == i32_as_unsigned(*self));
        }
        write_le_bytes(stream, unsigned, 4);
        Ok(())
    }
}

impl SerializableLittleEndian for i64 {
    open spec fn le_bytes(&self) -> Seq<u8> {
        le_bytes_of(i64_as_unsigned(*self), 8)
    }

    fn le_serialize(&self, stream: &mut Vec<u8>) -> (r: Result<(), ErrorSerialization>) {
        let unsigned: u64 = if *self >= 0 {
            *self as u64
        } else {
            (((*self as i128) + 0x1_0000_0000_0000_0000) as u64)
        };
        proof {
            assert(unsigned as nat == i64_as_unsigned(*self));
        }
        write_le_bytes(stream, unsigned, 8);
        proof {
            assert(stream@ =~= old(stream)@ + self.le_bytes());
        }
        Ok(())
    }
}

impl SerializableLittleEndian for bool {
    open spec fn le_bytes(&self) -> Seq<u8> {
        if *self {
            seq![1u8]
        } else {
            seq![0u8]
        }
    }

    fn le_serialize(&self, stream: &mut Vec<u8>) -> (r: Result<(), ErrorSerialization>) {
        let byte: u8 = if *self {
            1
        } else {
            0
        };
        stream.push(byte);
        proof {
            assert(stream@ =~= old(stream)@ + self.le_bytes());
        }
        Ok(())
    }
}

impl SerializableLittleEndian for String {
    open spec fn le_bytes(&self) -> Seq<u8> {
        vstd::utf8::encode_utf8(self@)
    }

    fn le_serialize(&self, stream: &mut Vec<u8>) -> (r: Result<(), ErrorSerialization>) {
        let bytes = self.as_str().as_bytes();
        super::serializable_internal_order::write_slice(stream, bytes);
        Ok(())
    }
}

impl SerializableLittleEndian for Vec<u8> {
    open spec fn le_bytes(&self) -> Seq<u8> {
        self@
    }

    fn le_serialize(&self, stream: &mut Vec<u8>) -> (r: Result<(), ErrorSerialization>) {
        let mut i: usize = 0;
        proof {
            assert(stream@ =~= stream@ + self@.take(0));
        }
        while i < self.len()
            invariant
                i <= self@.len(),
                stream@ == old(stream)@ + self@.take(i as int),
            decreases self@.len() - i,
        {
            stream.push(self[i]);
            proof {
                assert(old(stream)@ + self@.take(i + 1) =~= stream@);
            }
            i = i + 1;
        }
        proof {
            assert(self@.take(self@.len() as int) =~= self@);
        }
        Ok(())
    }
}

} // verus!
