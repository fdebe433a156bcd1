//! The change-pub-key operation handler.
//!
//! `create_op` resolves a transaction against the current ledger without
//! mutating it; `apply_op` performs the single atomic mutation; `apply_tx`
//! composes the two. All checks run against a private working copy of the
//! account, which is committed wholesale through one `insert_account` call
//! only after every check has passed — a failed operation leaves the ledger
//! untouched.

use vstd::prelude::*;

use crate::account::{addr_eq, AccountView};
use crate::errors::{StateError, TxError, ValidationError};
use crate::fees::CollectedFee;
use crate::ops::{ChangePubKeyOp, FranklinOp, OpSuccess};
use crate::params::MAX_ACCOUNT_ID;
use crate::state::PlasmaState;
use crate::tx::{ChangePubKey, EthSignature};
use crate::updates::{
    apply_updates_view, apply_update_view, AccountUpdate, AccountUpdates, update_applicable,
};

verus! {

/// Whether some account of the ledger holds the address the transaction
/// names.
pub open spec fn address_found(m: Map<u32, AccountView>, tx: ChangePubKey) -> bool {
    exists|k: u32| m.contains_key(k) && (#[trigger] m[k]).address == tx.account
}

/// The exact outcome of resolving a change-pub-key transaction against a
/// ledger: the checks run in order, and the first to fail names the error.
pub open spec fn resolve_verdict(
    m: Map<u32, AccountView>,
    tx: ChangePubKey,
) -> Result<ChangePubKeyOp, ValidationError> {
    if !address_found(m, tx) {
        Err(ValidationError::AccountNotFound)
    } else if !tx.signature_acceptable() {
        Err(ValidationError::SignatureInvalid)
    } else if !(m.contains_key(tx.account_id) && m[tx.account_id].address == tx.account) {
        Err(ValidationError::AccountIdMismatch)
    } else if tx.account_id > MAX_ACCOUNT_ID {
        Err(ValidationError::AccountIdOutOfRange)
    } else {
        Ok(ChangePubKeyOp { tx, account_id: tx.account_id })
    }
}

/// The exact outcome of applying a resolved change-pub-key operation to the
/// account it targets: the nonce must match, and the fee-token balance must
/// cover the fee.
pub open spec fn apply_error(a: AccountView, tx: ChangePubKey) -> Option<StateError> {
    if tx.nonce != a.nonce {
        Some(StateError::NonceMismatch)
    } else if a.balance_of(tx.fee_token) < tx.fee {
        Some(StateError::InsufficientBalance)
    } else {
        None
    }
}

/// The account after a change-pub-key operation: nonce advanced by exactly
/// one, key hash replaced, fee debited from the fee-token balance.
pub open spec fn chpk_account(a: AccountView, tx: ChangePubKey) -> AccountView {
    AccountView {
        address: a.address,
        pub_key_hash: tx.new_pk_hash,
        nonce: (a.nonce + 1) as u32,
        balances: a.balances.insert(tx.fee_token, (a.balance_of(tx.fee_token) - tx.fee) as u128),
    }
}

/// The two diff records a change-pub-key operation emits, in order: the
/// authorization-key change, the fee balance change.
pub open spec fn chpk_updates(op: ChangePubKeyOp, a: AccountView) -> Seq<(u32, AccountUpdate)> {
    seq![
        (
            op.account_id,
            AccountUpdate::ChangePubKeyHash {
                old_pub_key_hash: a.pub_key_hash,
                old_nonce: a.nonce,
                new_pub_key_hash: op.tx.new_pk_hash,
                new_nonce: (a.nonce + 1) as u32,
            },
        ),
        (
            op.account_id,
            AccountUpdate::UpdateBalance {
                balance_update: (
                    op.tx.fee_token,
                    a.balance_of(op.tx.fee_token),
                    (a.balance_of(op.tx.fee_token) - op.tx.fee) as u128,
                ),
                old_nonce: a.nonce,
                new_nonce: (a.nonce + 1) as u32,
            },
        ),
    ]
}

impl PlasmaState {
    /// Resolves a change-pub-key transaction against the current ledger.
    /// Pure: no mutation. The checks run in order: the address must belong
    /// to some account, a supplied signature must recover to that account's
    /// address (none supplied is accepted), the declared account id must
    /// equal the resolved one, and the id must not exceed the protocol
    /// maximum.
    pub fn create_op(&self, tx: ChangePubKey) -> (r: Result<ChangePubKeyOp, ValidationError>)
        requires
            self.wf(),
        ensures
            r == resolve_verdict(self@, tx),
    {
        let found = self.get_account_by_address(&tx.account);
        let (account_id, account) = match found {
            Some(p) => p,
            None => {
                return Err(ValidationError::AccountNotFound);
            },
        };
        let signature_ok = match tx.eth_signature {
            EthSignature::Absent => true,
            EthSignature::Recovered(signer) => addr_eq(&signer, &account.address),
            EthSignature::Unrecoverable => false,
        };
        if !signature_ok {
            return Err(ValidationError::SignatureInvalid);
        }
        if account_id != tx.account_id {
            proof {
                if self@.contains_key(tx.account_id) && self@[tx.account_id].address
                    == tx.account {
                    crate::state::lemma_state_address_unique(*self, account_id, tx.account_id);
                }
            }
            return Err(ValidationError::AccountIdMismatch);
        }
        if account_id > MAX_ACCOUNT_ID {
            return Err(ValidationError::AccountIdOutOfRange);
        }
        Ok(ChangePubKeyOp { tx, account_id })
    }

    /// Applies a resolved change-pub-key operation: the only state-mutating
    /// step. On success the account's nonce advances by exactly one, its key
    /// hash is replaced, the fee is debited, and exactly two diff records
    /// are emitted in order — the authorization-key change, then the balance
    /// change — together with the collected fee. On failure the ledger is
    /// byte-identical to its pre-call state. Folding the emitted records
    /// onto the pre-operation ledger reproduces the post-operation ledger.
    pub fn apply_op(&mut self, op: &ChangePubKeyOp) -> (r: Result<
        (Option<CollectedFee>, AccountUpdates),
        StateError,
    >)
        requires
            old(self).wf(),
            old(self)@.contains_key(op.account_id),
            op.tx.nonce < u32::MAX,
        ensures
            final(self).wf(),
            match r {
                Ok(p) => {
                    let a0 = old(self)@[op.account_id];
                    &&& apply_error(a0, op.tx) is None
                    &&& final(self)@ == old(self)@.insert(op.account_id, chpk_account(a0, op.tx))
                    &&& p.0 == Some(CollectedFee { token: op.tx.fee_token, amount: op.tx.fee })
                    &&& p.1@ == chpk_updates(*op, a0)
                    &&& apply_updates_view(old(self)@, p.1@) == final(self)@
                },
                Err(e) => {
                    &&& Some(e) == apply_error(old(self)@[op.account_id], op.tx)
                    &&& *final(self) == *old(self)
                },
            },
    {
        let ghost s0 = *old(self);
        let ghost a0 = s0@[op.account_id];
        let mut updates: AccountUpdates = Vec::new();
        let fetched = self.get_account(op.account_id);
        let mut account = match fetched {
            Some(a) => a,
            None => {
                return vstd::pervasive::unreached();
            },
        };
        let old_balance = account.get_balance(op.tx.fee_token);
        let old_pub_key_hash = account.pub_key_hash;
        let old_nonce = account.nonce;
        if op.tx.nonce != account.nonce {
            return Err(StateError::NonceMismatch);
        }
        account.nonce = account.nonce + 1;
        account.pub_key_hash = op.tx.new_pk_hash;
        if old_balance < op.tx.fee {
            return Err(StateError::InsufficientBalance);
        }
        account.sub_balance(op.tx.fee_token, op.tx.fee);
        let new_pub_key_hash = account.pub_key_hash;
        let new_nonce = account.nonce;
        let new_balance = account.get_balance(op.tx.fee_token);
        proof {
            crate::updates::lemma_other_addresses_differ(s0, op.account_id, a0.address);
            assert(account@ =~= chpk_account(a0, op.tx));
        }
        self.insert_account(op.account_id, account);
        updates.push(
            (
                op.account_id,
                AccountUpdate::ChangePubKeyHash {
                    old_pub_key_hash,
                    old_nonce,
                    new_pub_key_hash,
                    new_nonce,
                },
            ),
        );
        updates.push(
            (
                op.account_id,
                AccountUpdate::UpdateBalance {
                    balance_update: (op.tx.fee_token, old_balance, new_balance),
                    old_nonce,
                    new_nonce,
                },
            ),
        );
        let fee = CollectedFee { token: op.tx.fee_token, amount: op.tx.fee };
        proof {
            assert(updates@ =~= chpk_updates(*op, a0));
            lemma_chpk_replay(s0@, *op, a0, self@);
        }
        Ok((Some(fee), updates))
    }

    /// Executes a change-pub-key transaction: resolve, then apply, with the
    /// resolved operation tagged for the block's operation log. If resolve
    /// fails, apply is never reached; whenever an error comes back, the
    /// ledger is byte-identical to its pre-call state.
    pub fn apply_tx(&mut self, tx: ChangePubKey) -> (r: Result<OpSuccess, TxError>)
        requires
            old(self).wf(),
            tx.nonce < u32::MAX,
        ensures
            final(self).wf(),
            match r {
                Ok(s) => {
                    let op = ChangePubKeyOp { tx, account_id: tx.account_id };
                    let a0 = old(self)@[tx.account_id];
                    &&& resolve_verdict(old(self)@, tx) == Ok::<ChangePubKeyOp, ValidationError>(
                        op,
                    )
                    &&& apply_error(a0, tx) is None
                    &&& final(self)@ == old(self)@.insert(tx.account_id, chpk_account(a0, tx))
                    &&& s.fee == Some(CollectedFee { token: tx.fee_token, amount: tx.fee })
                    &&& s.updates@ == chpk_updates(op, a0)
                    &&& s.executed_op == FranklinOp::ChangePubKeyOffchain(op)
                    &&& apply_updates_view(old(self)@, s.updates@) == final(self)@
                },
                Err(TxError::Validation(e)) => {
                    &&& resolve_verdict(old(self)@, tx) == Err::<ChangePubKeyOp, ValidationError>(
                        e,
                    )
                    &&& *final(self) == *old(self)
                },
                Err(TxError::State(e)) => {
                    &&& resolve_verdict(old(self)@, tx) is Ok
                    &&& Some(e) == apply_error(old(self)@[tx.account_id], tx)
                    &&& *final(self) == *old(self)
                },
            },
    {
        let op = match self.create_op(tx) {
            Ok(op) => op,
            Err(e) => {
                return Err(TxError::Validation(e));
            },
        };
        match self.apply_op(&op) {
            Ok(p) => Ok(
                OpSuccess {
                    fee: p.0,
                    updates: p.1,
                    executed_op: FranklinOp::ChangePubKeyOffchain(op),
                },
            ),
            Err(e) => Err(TxError::State(e)),
        }
    }
}

/// Folding the two diff records a change-pub-key operation emits onto the
/// pre-operation ledger yields the post-operation ledger.
proof fn lemma_chpk_replay(
    m: Map<u32, AccountView>,
    op: ChangePubKeyOp,
    a0: AccountView,
    m1: Map<u32, AccountView>,
)
    requires
        m.contains_key(op.account_id),
        m[op.account_id] == a0,
        a0.nonce < u32::MAX,
        m1 == m.insert(op.account_id, chpk_account(a0, op.tx)),
    ensures
        apply_updates_view(m, chpk_updates(op, a0)) == m1,
{
    let u = chpk_updates(op, a0);
    let u0 = u[0];
    let u1 = u[1];
    assert(u.drop_last() =~= seq![u0]);
    assert(seq![u0].drop_last() =~= Seq::<(u32, AccountUpdate)>::empty());
    let ma = apply_update_view(m, u0.0, u0.1);
    assert(update_applicable(m, u0.0, u0.1));
    let step1 = AccountView {
        pub_key_hash: op.tx.new_pk_hash,
        nonce: (a0.nonce + 1) as u32,
        ..a0
    };
    assert(ma == m.insert(op.account_id, step1));
    assert(ma.contains_key(op.account_id));
    assert(update_applicable(ma, u1.0, u1.1));
    let mb = apply_update_view(ma, u1.0, u1.1);
    assert(mb == ma.insert(
        op.account_id,
        AccountView {
            nonce: (a0.nonce + 1) as u32,
            balances: step1.balances.insert(
                op.tx.fee_token,
                (a0.balance_of(op.tx.fee_token) - op.tx.fee) as u128,
            ),
            ..step1
        },
    ));
    assert(u.len() == 2);
    assert(u.last() == u1);
    assert(seq![u0].last() == u0);
    assert(apply_updates_view(m, Seq::<(u32, AccountUpdate)>::empty()) == m);
    assert(apply_updates_view(m, seq![u0]) == ma);
    assert(apply_updates_view(m, u) == apply_update_view(
        apply_updates_view(m, u.drop_last()),
        u1.0,
        u1.1,
    ));
    assert(apply_updates_view(m, u) == mb);
    assert(mb =~= m1);
}

} // verus!

