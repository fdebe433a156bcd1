//! Account-update diff records.
//!
//! Every successful mutation emits an ordered sequence of immutable
//! [`AccountUpdate`] records. Each record carries the old and the new value
//! of one field of one account, together with the nonce values needed to
//! reconstruct the change independently of other updates. Folding the
//! records of an operation onto the pre-operation ledger reproduces the
//! post-operation ledger exactly; that is what external consumers rely on
//! for independent verification and catch-up synchronization.

use vstd::prelude::*;

use crate::account::{addr_eq, Account, AccountView, Address, PubKeyHash, TokenId};
use crate::account::spec_zero_pub_key_hash;
use crate::assoc::{lemma_assoc_contains, lemma_assoc_remove};
use crate::params::MAX_ACCOUNT_ID;
use crate::state::PlasmaState;

verus! {

/// An immutable record of one field-level change to one account.
#[derive(Clone, Copy, Debug, PartialEq, Eq)]
pub enum AccountUpdate {
    /// A previously unseen account came into existence at `address`.
    Create { address: Address, nonce: u32 },
    /// The account at `address` left the ledger (a full-exit-style
    /// operation); the record repeats its address and nonce.
    Delete { address: Address, nonce: u32 },
    /// The authorization key hash changed.
    ChangePubKeyHash {
        old_pub_key_hash: PubKeyHash,
        old_nonce: u32,
        new_pub_key_hash: PubKeyHash,
        new_nonce: u32,
    },
    /// One token balance changed; the tuple holds the token, the old amount
    /// and the new amount.
    UpdateBalance { balance_update: (TokenId, u128, u128), old_nonce: u32, new_nonce: u32 },
}

/// The ordered diff records of one operation, each tagged with the account
/// identifier it touches.
pub type AccountUpdates = Vec<(u32, AccountUpdate)>;

/// Whether one diff record can be folded onto a ledger.
pub open spec fn update_applicable(m: Map<u32, AccountView>, id: u32, upd: AccountUpdate) -> bool {
    match upd {
        AccountUpdate::Create { address, nonce } => {
            &&& !m.contains_key(id)
            &&& id <= MAX_ACCOUNT_ID
            &&& forall|k: u32| m.contains_key(k) ==> (#[trigger] m[k]).address != address
        },
        AccountUpdate::Delete { address, nonce } => {
            &&& m.contains_key(id)
            &&& m[id].address == address
            &&& m[id].nonce == nonce
        },
        AccountUpdate::ChangePubKeyHash { old_pub_key_hash, old_nonce, new_pub_key_hash, new_nonce } => m.contains_key(
            id,
        ),
        AccountUpdate::UpdateBalance { balance_update, old_nonce, new_nonce } => m.contains_key(id),
    }
}

/// Folds one diff record onto a ledger; a record that is not applicable
/// leaves the ledger as it is.
pub open spec fn apply_update_view(
    m: Map<u32, AccountView>,
    id: u32,
    upd: AccountUpdate,
) -> Map<u32, AccountView> {
    if !update_applicable(m, id, upd) {
        m
    } else {
        match upd {
            AccountUpdate::Create { address, nonce } => m.insert(
                id,
                AccountView {
                    address,
                    pub_key_hash: spec_zero_pub_key_hash(),
                    nonce,
                    balances: Map::empty(),
                },
            ),
            AccountUpdate::Delete { address, nonce } => m.remove(id),
            AccountUpdate::ChangePubKeyHash {
                old_pub_key_hash,
                old_nonce,
                new_pub_key_hash,
                new_nonce,
            } => m.insert(
                id,
                AccountView { pub_key_hash: new_pub_key_hash, nonce: new_nonce, ..m[id] },
            ),
            AccountUpdate::UpdateBalance { balance_update, old_nonce, new_nonce } => m.insert(
                id,
                AccountView {
                    nonce: new_nonce,
                    balances: m[id].balances.insert(balance_update.0, balance_update.2),
                    ..m[id]
                },
            ),
        }
    }
}

/// Folds an ordered sequence of diff records onto a ledger, first to last.
pub open spec fn apply_updates_view(
    m: Map<u32, AccountView>,
    updates: Seq<(u32, AccountUpdate)>,
) -> Map<u32, AccountView>
    decreases updates.len(),
{
    if updates.len() == 0 {
        m
    } else {
        apply_update_view(
            apply_updates_view(m, updates.drop_last()),
            updates.last().0,
            updates.last().1,
        )
    }
}

/// Folding a concatenation of two diff sequences is folding the first and
/// then the second: the block-level replay of a full update log is the
/// composition of the per-operation replays.
pub proof fn lemma_apply_updates_append(
    m: Map<u32, AccountView>,
    u1: Seq<(u32, AccountUpdate)>,
    u2: Seq<(u32, AccountUpdate)>,
)
    ensures
        apply_updates_view(m, u1 + u2) == apply_updates_view(apply_updates_view(m, u1), u2),
    decreases u2.len(),
{
    if u2.len() == 0 {
        assert(u1 + u2 =~= u1);
    } else {
        lemma_apply_updates_append(m, u1, u2.drop_last());
        assert((u1 + u2).drop_last() =~= u1 + u2.drop_last());
        assert((u1 + u2).last() == u2.last());
    }
}

impl PlasmaState {
    /// Folds one diff record onto the ledger, reporting whether it was
    /// applicable; a record that is not applicable leaves the ledger
    /// untouched, as the abstract fold does.
    pub fn apply_account_update(&mut self, id: u32, upd: &AccountUpdate) -> (applied: bool)
        requires
            old(self).wf(),
        ensures
            final(self).wf(),
            final(self)@ == apply_update_view(old(self)@, id, *upd),
            applied <==> update_applicable(old(self)@, id, *upd),
            !applied ==> *final(self) == *old(self),
    {
        match upd {
            AccountUpdate::Create { address, nonce } => {
                if id > MAX_ACCOUNT_ID {
                    return false;
                }
                let existing = self.get_account(id);
                if existing.is_some() {
                    return false;
                }
                let holder = self.get_account_by_address(address);
                if holder.is_some() {
                    let p = holder.unwrap();
                    proof {
                        assert(old(self)@.contains_key(p.0) && old(self)@[p.0].address
                            == *address);
                    }
                    return false;
                }
                let mut account = Account::new(*address);
                account.nonce = *nonce;
                self.insert_account(id, account);
                true
            },
            AccountUpdate::Delete { address, nonce } => {
                let existing = self.get_account(id);
                match existing {
                    None => false,
                    Some(a) => {
                        if !addr_eq(&a.address, address) || a.nonce != *nonce {
                            return false;
                        }
                        self.remove_account(id);
                        true
                    },
                }
            },
            AccountUpdate::ChangePubKeyHash {
                old_pub_key_hash,
                old_nonce,
                new_pub_key_hash,
                new_nonce,
            } => {
                let existing = self.get_account(id);
                match existing {
                    None => false,
                    Some(mut a) => {
                        a.pub_key_hash = *new_pub_key_hash;
                        a.nonce = *new_nonce;
                        proof {
                            lemma_other_addresses_differ(*old(self), id, a@.address);
                        }
                        self.insert_account(id, a);
                        proof {
                            assert(self@ =~= apply_update_view(old(self)@, id, *upd));
                        }
                        true
                    },
                }
            },
            AccountUpdate::UpdateBalance { balance_update, old_nonce, new_nonce } => {
                let existing = self.get_account(id);
                match existing {
                    None => false,
                    Some(mut a) => {
                        a.set_balance(balance_update.0, balance_update.2);
                        a.nonce = *new_nonce;
                        proof {
                            lemma_other_addresses_differ(*old(self), id, a@.address);
                        }
                        self.insert_account(id, a);
                        proof {
                            assert(self@ =~= apply_update_view(old(self)@, id, *upd));
                        }
                        true
                    },
                }
            },
        }
    }

    /// Folds an ordered sequence of diff records onto the ledger, first to
    /// last, reporting whether every record was applicable.
    pub fn apply_account_updates(&mut self, updates: &AccountUpdates) -> (all_applied: bool)
        requires
            old(self).wf(),
        ensures
            final(self).wf(),
            final(self)@ == apply_updates_view(old(self)@, updates@),
    {
        let mut all_applied = true;
        let mut i: usize = 0;
        while i < updates.len()
            invariant
                0 <= i <= updates@.len(),
                self.wf(),
                self@ == apply_updates_view(old(self)@, updates@.take(i as int)),
            decreases updates@.len() - i,
        {
            let p = updates[i];
            let applied = self.apply_account_update(p.0, &p.1);
            if !applied {
                all_applied = false;
            }
            proof {
                assert(updates@.take(i + 1).drop_last() =~= updates@.take(i as int));
                assert(updates@.take(i + 1).last() == updates@[i as int]);
            }
            i += 1;
        }
        proof {
            assert(updates@.take(updates@.len() as int) =~= updates@);
        }
        all_applied
    }

    /// Removes the record of `id`; used only when folding a removal record.
    fn remove_account(&mut self, id: u32)
        requires
            old(self).wf(),
            old(self)@.contains_key(id),
        ensures
            final(self).wf(),
            final(self)@ == old(self)@.remove(id),
    {
        let ghost s0 = *old(self);
        let pos = self.position_of_id(id);
        match pos {
            Some(i) => {
                proof {
                    assert(s0.entries()[i as int] == (id, s0.accounts@[i as int].1@));
                    lemma_assoc_remove(s0.entries(), i as int);
                }
                self.accounts.remove(i);
                proof {
                    assert(self.entries() =~= s0.entries().remove(i as int));
                    lemma_remove_wf(s0, *self, i as int);
                }
            },
            None => {
                proof {
                    lemma_assoc_contains(s0.entries(), id);
                    let j = choose|j: int|
                        0 <= j < s0.entries().len() && (#[trigger] s0.entries()[j]).0 == id;
                    assert(s0.accounts@[j].0 == id);
                    assert(false);
                }
            },
        }
    }
}

/// In a well-formed ledger, the address held by `id` is held by no other
/// identifier.
pub proof fn lemma_other_addresses_differ(s: PlasmaState, id: u32, address: Address)
    requires
        s.wf(),
        s@.contains_key(id),
        s@[id].address == address,
    ensures
        forall|k: u32|
            s@.contains_key(k) && k != id ==> (#[trigger] s@[k]).address != address,
{
    assert forall|k: u32| s@.contains_key(k) && k != id implies (#[trigger] s@[k]).address
        != address by {
        crate::state::lemma_state_address_unique(s, k, id);
    }
}

/// Removing an entry keeps the ledger well formed.
proof fn lemma_remove_wf(s0: PlasmaState, s1: PlasmaState, i: int)
    requires
        s0.wf(),
        0 <= i < s0.entries().len(),
        s1.entries() == s0.entries().remove(i),
        s1.accounts@ == s0.accounts@.remove(i),
    ensures
        s1.wf(),
{
    lemma_assoc_remove(s0.entries(), i);
    s0.entries().remove_ensures(i);
    s0.accounts@.remove_ensures(i);
    assert forall|x: int, y: int|
        0 <= x < s1.entries().len() && 0 <= y < s1.entries().len() && x != y implies (
    #[trigger] s1.entries()[x]).1.address != (#[trigger] s1.entries()[y]).1.address by {
        let x0 = if x < i {
            x
        } else {
            x + 1
        };
        let y0 = if y < i {
            y
        } else {
            y + 1
        };
        assert(s1.entries()[x] == s0.entries()[x0]);
        assert(s1.entries()[y] == s0.entries()[y0]);
    }
    assert forall|j: int| 0 <= j < s1.accounts@.len() implies (
    #[trigger] s1.accounts@[j]).1.wf() by {
        let j0 = if j < i {
            j
        } else {
            j + 1
        };
        assert(s1.accounts@[j] == s0.accounts@[j0]);
    }
}

/// The ordered, append-only log of the diff records of a block under
/// construction, in operation-application order.
pub struct AccountUpdateLog {
    pub entries: Vec<(u32, AccountUpdate)>,
}

impl AccountUpdateLog {
    /// An empty log.
    pub fn new() -> (r: AccountUpdateLog)
        ensures
            r.entries@ == Seq::<(u32, AccountUpdate)>::empty(),
    {
        AccountUpdateLog { entries: Vec::new() }
    }

    /// Appends the diff records of one executed operation.
    pub fn append(&mut self, updates: &AccountUpdates)
        ensures
            final(self).entries@ == old(self).entries@ + updates@,
    {
        let ghost e0 = old(self).entries@;
        let mut i: usize = 0;
        while i < updates.len()
            invariant
                0 <= i <= updates@.len(),
                self.entries@ == e0 + updates@.take(i as int),
            decreases updates@.len() - i,
        {
            let p = updates[i];
            self.entries.push(p);
            proof {
                assert(e0 + updates@.take(i + 1) =~= (e0 + updates@.take(i as int)).push(
                    updates@[i as int],
                ));
            }
            i += 1;
        }
        proof {
            assert(e0 + updates@.take(updates@.len() as int) =~= e0 + updates@);
        }
    }
}

} // verus!
