use vstd::prelude::*;

use super::encoding::{le_bytes_of, lemma_le_bytes_of_len};
use super::error_serialization::ErrorSerialization;
use super::primitives::write_le_bytes;
use super::serializable_internal_order::write_array;

verus! {

/// A value written big-endian on the wire: ports and addresses inside
/// version-message address records.
pub trait SerializableBigEndian {
    /// The big-endian wire bytes of this value.
    spec fn be_bytes(&self) -> Seq<u8>;

    /// Appends the value's big-endian bytes to `stream`.
    fn be_serialize(&self, stream: &mut Vec<u8>) -> (r: Result<(), ErrorSerialization>)
        ensures
            r is Ok,
            final(stream)@ == old(stream)@ + self.be_bytes(),
    ;
}

impl SerializableBigEndian for u16 {
    open spec fn be_bytes(&self) -> Seq<u8> {
        le_bytes_of(*self as nat, 2).reverse()
    }

    fn be_serialize(&self, stream: &mut Vec<u8>) -> (r: Result<(), ErrorSerialization>) {
        stream.push((*self / 256) as u8);
        stream.push((*self % 256) as u8);
        proof {
            lemma_le_bytes_of_len(*self as nat, 2);
            assert(le_bytes_of(*self as nat, 2)[0] == (*self % 256) as u8);
            assert(le_bytes_of(*self as nat, 2).drop_first() =~= le_bytes_of(*self as nat / 256, 1));
            assert(le_bytes_of(*self as nat, 2)[1] == ((*self as nat) / 256 % 256) as u8);
            assert((*self as nat) / 256 % 256 == (*self as nat) / 256);
            assert(stream@ =~= old(stream)@ + self.be_bytes());
        }
        Ok(())
    }
}

/// An IPv6 address held as its 16 network-order bytes.
impl SerializableBigEndian for [u8; 16] {
    open spec fn be_bytes(&self) -> Seq<u8> {
        self@
    }

    fn be_serialize(&self, stream: &mut Vec<u8>) -> (r: Result<(), ErrorSerialization>) {
        write_array(stream, self);
        Ok(())
    }
}

} // verus!
