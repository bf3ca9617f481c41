use vstd::prelude::*;

verus! {

/// Errors raised while reading the configuration text.
#[derive(Debug, Clone, PartialEq, Eq)]
pub enum ErrorConfiguration {
    /// The option is not in the text.
    ValueNotFound,
    /// The option's text does not denote a value of the wanted type.
    ErrorCantParseValue(String),
}

} // verus!
