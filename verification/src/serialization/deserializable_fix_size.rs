use vstd::prelude::*;

use vstd::utf8::{decode_utf8, encode_utf8, valid_utf8};

use super::error_serialization::ErrorSerialization;
use super::primitives::read_bytes;

verus! {

/// Relies on `String::from_utf8`: bytes that are valid UTF-8 become the
/// string made of exactly those bytes, and invalid bytes are refused.
#[verifier::external_body]
pub(crate) fn string_from_utf8(bytes: Vec<u8>) -> (r: Option<String>)
    ensures
        r matches Some(s) ==> valid_utf8(bytes@) && encode_utf8(s@) == bytes@,
        r is None ==> !valid_utf8(bytes@),
{
    match String::from_utf8(bytes) {
        Ok(s) => Some(s),
        Err(_) => None,
    }
}

/// A value whose wire encoding carries no own length: the caller says how
/// many bytes to read.
pub trait DeserializableFixSize: Sized + View {
    /// Which value the first `size` bytes of a stream hold; `None` when they
    /// hold none.
    spec fn fix_size_parse(data: Seq<u8>, size: nat) -> Option<Self::V>;

    /// Reads a value off the first `size` bytes of `stream`, advancing it;
    /// on failure the stream is left unchanged.
    fn deserialize_fix_size(stream: &mut &[u8], size: usize) -> (r: Result<
        Self,
        ErrorSerialization,
    >)
        ensures
            (r matches Ok(v) ==> {
                &&& old(stream)@.len() >= size
                &&& Self::fix_size_parse(old(stream)@, size as nat) == Some(v@)
                &&& final(stream)@ == old(stream)@.skip(size as int)
            }),
            (r is Err ==> Self::fix_size_parse(old(stream)@, size as nat) is None
                && final(stream)@ == old(stream)@),
    ;
}

impl DeserializableFixSize for String {
    open spec fn fix_size_parse(data: Seq<u8>, size: nat) -> Option<Seq<char>> {
        if data.len() >= size && valid_utf8(data.take(size as int)) {
            Some(decode_utf8(data.take(size as int)))
        } else {
            None
        }
    }

    fn deserialize_fix_size(stream: &mut &[u8], size: usize) -> (r: Result<
        String,
        ErrorSerialization,
    >) {
        let saved: &[u8] = *stream;
        match read_bytes(stream, size) {
            Some(bytes) => {
                let ghost taken = bytes@;
                match string_from_utf8(bytes) {
                    Some(s) => {
                        proof {
                            vstd::utf8::encode_utf8_decode_utf8(s@);
                        }
                        Ok(s)
                    },
                    None => {
                        *stream = saved;
                        Err(ErrorSerialization::ErrorInDeserialization(
                            "bytes are not valid text".to_string(),
                        ))
                    },
                }
            },
            None => Err(ErrorSerialization::ErrorWhileReading),
        }
    }
}

} // verus!
