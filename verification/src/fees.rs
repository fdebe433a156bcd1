//! Fee accounting.
//!
//! Each fee-charging operation yields one [`CollectedFee`]; the accumulator
//! sums them per token across a block, for a single credit to the
//! fee-collector account at block finalization.

use vstd::prelude::*;

use crate::account::TokenId;
use crate::assoc::{amount_vec_get, amount_vec_set, assoc_map, keys_unique};

verus! {

/// The fee one operation charged: token and amount. A side output of the
/// operation, not part of the ledger.
#[derive(Clone, Copy, Debug, PartialEq, Eq)]
pub struct CollectedFee {
    pub token: TokenId,
    pub amount: u128,
}

/// Per-token fee totals of a block under construction.
#[derive(Debug, PartialEq, Eq)]
pub struct FeeAccumulator {
    /// Token/total pairs; tokens are pairwise distinct.
    pub totals: Vec<(TokenId, u128)>,
}

impl View for FeeAccumulator {
    type V = Map<TokenId, u128>;

    open spec fn view(&self) -> Map<TokenId, u128> {
        assoc_map(self.totals@)
    }
}

impl FeeAccumulator {
    /// The totals table names each token at most once.
    pub open spec fn wf(self) -> bool {
        keys_unique(self.totals@)
    }

    /// Total collected so far for `token`, reading an absent entry as zero.
    pub open spec fn spec_total_of(self, token: TokenId) -> u128 {
        if self@.contains_key(token) {
            self@[token]
        } else {
            0u128
        }
    }

    /// An empty accumulator.
    pub fn new() -> (r: FeeAccumulator)
        ensures
            r.wf(),
            r@ == Map::<TokenId, u128>::empty(),
    {
        FeeAccumulator { totals: Vec::new() }
    }

    /// Total collected so far for `token`.
    pub fn total_of(&self, token: TokenId) -> (r: u128)
        requires
            self.wf(),
        ensures
            r == self.spec_total_of(token),
    {
        amount_vec_get(&self.totals, token)
    }

    /// Adds one collected fee to its token's total. Reports `false`, leaving
    /// the accumulator untouched, when the total would not fit.
    pub fn add_fee(&mut self, fee: &CollectedFee) -> (ok: bool)
        requires
            old(self).wf(),
        ensures
            final(self).wf(),
            ok <==> old(self).spec_total_of(fee.token) + fee.amount <= u128::MAX,
            ok ==> final(self)@ == old(self)@.insert(
                fee.token,
                (old(self).spec_total_of(fee.token) + fee.amount) as u128,
            ),
            !ok ==> *final(self) == *old(self),
    {
        let current = amount_vec_get(&self.totals, fee.token);
        if fee.amount > u128::MAX - current {
            return false;
        }
        amount_vec_set(&mut self.totals, fee.token, current + fee.amount);
        true
    }
}

} // verus!
