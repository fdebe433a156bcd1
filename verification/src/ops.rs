//! Resolved operations and the result of executing one.

use vstd::prelude::*;

use crate::fees::CollectedFee;
use crate::tx::ChangePubKey;
use crate::updates::AccountUpdates;

verus! {

/// A resolved change-pub-key operation: the submitted transaction paired with
/// the account id the ledger resolved it to. Immutable once constructed.
#[derive(Clone, Copy, Debug, PartialEq, Eq)]
pub struct ChangePubKeyOp {
    pub tx: ChangePubKey,
    pub account_id: u32,
}

/// A resolved operation tagged with its kind, for the block's operation log.
#[derive(Clone, Copy, Debug, PartialEq, Eq)]
pub enum FranklinOp {
    ChangePubKeyOffchain(ChangePubKeyOp),
}

/// Everything a successfully executed operation hands to the block builder:
/// the optional collected fee, the ordered diff records, and the tagged
/// operation for the block's operation log.
#[derive(Clone, Debug, PartialEq, Eq)]
pub struct OpSuccess {
    pub fee: Option<CollectedFee>,
    pub updates: AccountUpdates,
    pub executed_op: FranklinOp,
}

} // verus!
