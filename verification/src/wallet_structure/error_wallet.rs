use vstd::prelude::*;

verus! {

/// Errors raised by wallet operations.
#[derive(Debug, Clone, PartialEq, Eq)]
pub enum ErrorWallet {
    /// The address text is not a valid Base58 address of the right length.
    CannotDecodeAddress(String),
    /// The address could not be derived from the public key.
    CannotCreateAddress(String),
    /// The private key bytes are outside the curve's order.
    CannotGeneratePrivateKey(String),
    /// The account does not own enough satoshis.
    NotEnoughFunds(String),
    /// The transaction could not be assembled.
    CannotCreateNewTransaction(String),
    /// The digest could not be signed.
    CannotSignMessage(String),
}

} // verus!
