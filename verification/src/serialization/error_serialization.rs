use vstd::prelude::*;

verus! {

/// Errors raised while turning values into wire bytes or reading them back.
#[derive(Debug, Clone, PartialEq, Eq)]
pub enum ErrorSerialization {
    /// A value could not be encoded.
    ErrorInSerialization(String),
    /// The bytes read do not form a valid value.
    ErrorInDeserialization(String),
    /// The destination refused the bytes.
    ErrorWhileWriting,
    /// The source ended before the value was complete.
    ErrorWhileReading,
}

} // verus!
