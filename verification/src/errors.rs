//! Error taxonomy of the transition core.
//!
//! Validation errors come from resolving a transaction and are raised before
//! any mutation; state errors come from applying a resolved operation and
//! are raised before the single committing `insert_account` call, so on
//! either kind the ledger is guaranteed unchanged. Both are recovered at the
//! block-builder boundary by leaving the transaction out of the block.

use vstd::prelude::*;

verus! {

/// Rejection of a transaction while resolving it against the ledger.
#[derive(Clone, Copy, Debug, PartialEq, Eq)]
pub enum ValidationError {
    /// No account holds the address the transaction names.
    AccountNotFound,
    /// A supplied external signature does not recover to the account's
    /// address.
    SignatureInvalid,
    /// The declared account id differs from the address-resolved id.
    AccountIdMismatch,
    /// The resolved id exceeds the protocol maximum.
    AccountIdOutOfRange,
}

/// Rejection of a resolved operation while applying it.
#[derive(Clone, Copy, Debug, PartialEq, Eq)]
pub enum StateError {
    /// The transaction's nonce differs from the account's current nonce.
    NonceMismatch,
    /// The fee exceeds the account's balance in the fee token.
    InsufficientBalance,
}

/// Rejection of a transaction by the composed resolve-then-apply step.
#[derive(Clone, Copy, Debug, PartialEq, Eq)]
pub enum TxError {
    Validation(ValidationError),
    State(StateError),
}

} // verus!
