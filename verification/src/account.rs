//! A single ledger entry: identity, authorization key hash, replay-protection
//! nonce and per-token balances.

use vstd::prelude::*;

use crate::assoc::{amount_vec_get, amount_vec_set, assoc_map, keys_unique};

verus! {

/// Fixed-length external chain address owning an account.
pub type Address = [u8; 20];

/// Fixed-length hash of the public key authorized to sign operations for an
/// account; changed only by the change-pub-key operation.
pub type PubKeyHash = [u8; 20];

/// Identifier of a token whose balances the ledger tracks.
pub type TokenId = u32;

/// Abstract value of an account. Balances are a finite map from token to
/// amount; a token outside the map holds a zero balance.
#[verifier::ext_equal]
pub struct AccountView {
    pub address: Address,
    pub pub_key_hash: PubKeyHash,
    pub nonce: u32,
    pub balances: Map<TokenId, u128>,
}

impl AccountView {
    /// Balance of `token`, reading an absent entry as zero.
    pub open spec fn balance_of(self, token: TokenId) -> u128 {
        if self.balances.contains_key(token) {
            self.balances[token]
        } else {
            0u128
        }
    }
}

/// One ledger entry.
#[derive(Debug, PartialEq, Eq)]
pub struct Account {
    /// External chain address; immutable after creation.
    pub address: Address,
    /// Hash authorizing future signed operations from this account.
    pub pub_key_hash: PubKeyHash,
    /// Strictly increasing counter preventing operation replay.
    pub nonce: u32,
    /// Token/amount pairs; a token with no entry holds a zero balance.
    pub balances: Vec<(TokenId, u128)>,
}

impl View for Account {
    type V = AccountView;

    open spec fn view(&self) -> AccountView {
        AccountView {
            address: self.address,
            pub_key_hash: self.pub_key_hash,
            nonce: self.nonce,
            balances: assoc_map(self.balances@),
        }
    }
}

impl Account {
    /// The balance table names each token at most once.
    pub open spec fn wf(self) -> bool {
        keys_unique(self.balances@)
    }

    /// A fresh account at the given address: zero nonce, zero authorization
    /// key hash, no balances.
    pub fn new(address: Address) -> (r: Account)
        ensures
            r.wf(),
            r@.address == address,
            r@.pub_key_hash == spec_zero_pub_key_hash(),
            r@.nonce == 0,
            r@.balances == Map::<TokenId, u128>::empty(),
    {
        Account {
            address,
            pub_key_hash: zero_pub_key_hash(),
            nonce: 0,
            balances: Vec::new(),
        }
    }

    /// Balance of `token`; an absent entry reads as zero.
    pub fn get_balance(&self, token: TokenId) -> (r: u128)
        requires
            self.wf(),
        ensures
            r == self@.balance_of(token),
    {
        amount_vec_get(&self.balances, token)
    }

    /// Sets the balance of `token`, creating its entry when absent.
    pub fn set_balance(&mut self, token: TokenId, amount: u128)
        requires
            old(self).wf(),
        ensures
            final(self).wf(),
            final(self)@.balances == old(self)@.balances.insert(token, amount),
            final(self)@.address == old(self)@.address,
            final(self)@.pub_key_hash == old(self)@.pub_key_hash,
            final(self)@.nonce == old(self)@.nonce,
    {
        amount_vec_set(&mut self.balances, token, amount);
    }

    /// Debits `amount` from the balance of `token`; the caller has already
    /// checked that the balance covers it.
    pub fn sub_balance(&mut self, token: TokenId, amount: u128)
        requires
            old(self).wf(),
            old(self)@.balance_of(token) >= amount,
        ensures
            final(self).wf(),
            final(self)@.balances == old(self)@.balances.insert(
                token,
                (old(self)@.balance_of(token) - amount) as u128,
            ),
            final(self)@.address == old(self)@.address,
            final(self)@.pub_key_hash == old(self)@.pub_key_hash,
            final(self)@.nonce == old(self)@.nonce,
    {
        let b = self.get_balance(token);
        self.set_balance(token, b - amount);
    }
}

impl Clone for Account {
    /// Clones preserve the account's abstract value and its representation's
    /// balance table.
    fn clone(&self) -> (res: Self)
        ensures
            res@ == self@,
            res.balances@ == self.balances@,
    {
        let mut balances: Vec<(TokenId, u128)> = Vec::new();
        let mut i: usize = 0;
        while i < self.balances.len()
            invariant
                0 <= i <= self.balances@.len(),
                balances@ == self.balances@.take(i as int),
            decreases self.balances@.len() - i,
        {
            let p = self.balances[i];
            balances.push(p);
            proof {
                assert(balances@ =~= self.balances@.take(i + 1));
            }
            i += 1;
        }
        proof {
            assert(balances@ =~= self.balances@);
        }
        Account {
            address: self.address,
            pub_key_hash: self.pub_key_hash,
            nonce: self.nonce,
            balances,
        }
    }
}

/// The all-zero authorization key hash carried by a freshly created account.
pub open spec fn spec_zero_pub_key_hash() -> PubKeyHash {
    vstd::array::spec_array_fill_for_copy_type::<u8, 20>(0u8)
}

/// Builds the all-zero authorization key hash.
pub fn zero_pub_key_hash() -> (r: PubKeyHash)
    ensures
        r == spec_zero_pub_key_hash(),
{
    vstd::array::array_fill_for_copy_types::<u8, 20>(0u8)
}

/// Byte-wise equality of two fixed-length addresses or key hashes.
pub fn addr_eq(a: &Address, b: &Address) -> (r: bool)
    ensures
        r <==> *a == *b,
{
    broadcast use vstd::array::group_array_axioms;

    let mut i: usize = 0;
    while i < 20
        invariant
            0 <= i <= 20,
            forall|j: int| 0 <= j < i ==> a@[j] == b@[j],
        decreases 20 - i,
    {
        if a[i] != b[i] {
            assert(a@[i as int] != b@[i as int]);
            assert(a@ != b@);
            return false;
        }
        i += 1;
    }
    proof {
        assert(a@ =~= b@);
        assert(*a =~= *b);
    }
    true
}

} // verus!
