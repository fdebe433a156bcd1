//! Protocol-wide parameters of the ledger.

use vstd::prelude::*;

verus! {

/// Largest account identifier the protocol supports; the ledger's backing
/// merkle tree has a fixed depth, so identifiers beyond this bound cannot be
/// committed.
pub const MAX_ACCOUNT_ID: u32 = 16777215;

} // verus!
