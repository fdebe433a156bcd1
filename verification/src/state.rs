//! The ledger: the mutable account table transitioned during block
//! construction.
//!
//! The table is abstracted to a finite map from account identifier to
//! [`AccountView`]. `insert_account` is the only mutation entry point;
//! operation handlers validate on a private working copy of an account and
//! commit it through a single `insert_account` call, so a failed operation
//! never leaves a partially mutated account visible.

use vstd::prelude::*;

use crate::account::{addr_eq, Account, AccountView, Address};
use crate::assoc::{
    assoc_map, keys_unique, lemma_assoc_contains, lemma_assoc_index, lemma_assoc_push,
    lemma_assoc_update,
};

verus! {

/// The account ledger of one in-progress block-construction context.
#[derive(Clone, Debug, PartialEq, Eq)]
pub struct PlasmaState {
    /// Identifier/account pairs; identifiers and addresses are pairwise
    /// distinct.
    pub accounts: Vec<(u32, Account)>,
}

impl View for PlasmaState {
    type V = Map<u32, AccountView>;

    open spec fn view(&self) -> Map<u32, AccountView> {
        assoc_map(self.entries())
    }
}

impl PlasmaState {
    /// The account table as a sequence of identifier/abstract-value pairs.
    pub open spec fn entries(self) -> Seq<(u32, AccountView)> {
        self.accounts@.map_values(|p: (u32, Account)| (p.0, p.1@))
    }

    /// Well-formedness of the representation: identifiers are pairwise
    /// distinct, addresses are pairwise distinct, and every account's
    /// balance table is well formed.
    pub open spec fn wf(self) -> bool {
        &&& keys_unique(self.entries())
        &&& forall|i: int, j: int|
            0 <= i < self.entries().len() && 0 <= j < self.entries().len() && i != j ==> (
            #[trigger] self.entries()[i]).1.address != (#[trigger] self.entries()[j]).1.address
        &&& forall|i: int|
            0 <= i < self.accounts@.len() ==> (#[trigger] self.accounts@[i]).1.wf()
    }

    /// An empty ledger.
    pub fn new() -> (r: PlasmaState)
        ensures
            r.wf(),
            r@ == Map::<u32, AccountView>::empty(),
    {
        let r = PlasmaState { accounts: Vec::new() };
        proof {
            assert(r.entries() =~= Seq::<(u32, AccountView)>::empty());
        }
        r
    }

    /// Index of the entry carrying `id`, if any.
    pub(crate) fn position_of_id(&self, id: u32) -> (r: Option<usize>)
        ensures
            match r {
                Some(i) => i < self.accounts@.len() && (#[trigger] self.accounts@[i as int]).0
                    == id,
                None => forall|j: int|
                    0 <= j < self.accounts@.len() ==> (#[trigger] self.accounts@[j]).0 != id,
            },
    {
        let mut i: usize = 0;
        while i < self.accounts.len()
            invariant
                0 <= i <= self.accounts@.len(),
                forall|j: int| 0 <= j < i ==> (#[trigger] self.accounts@[j]).0 != id,
            decreases self.accounts@.len() - i,
        {
            if self.accounts[i].0 == id {
                return Some(i);
            }
            i += 1;
        }
        None
    }

    /// Point lookup by account identifier; no side effects.
    pub fn get_account(&self, id: u32) -> (r: Option<Account>)
        requires
            self.wf(),
        ensures
            match r {
                Some(a) => self@.contains_key(id) && a@ == self@[id] && a.wf(),
                None => !self@.contains_key(id),
            },
    {
        let pos = self.position_of_id(id);
        match pos {
            Some(i) => {
                proof {
                    assert(self.entries()[i as int] == (id, self.accounts@[i as int].1@));
                    lemma_assoc_index(self.entries(), i as int);
                }
                let p = &self.accounts[i];
                Some(p.1.clone())
            },
            None => {
                proof {
                    lemma_assoc_contains(self.entries(), id);
                    if self@.contains_key(id) {
                        let j = choose|j: int|
                            0 <= j < self.entries().len() && (#[trigger] self.entries()[j]).0
                                == id;
                        assert(self.accounts@[j].0 == id);
                    }
                }
                None
            },
        }
    }

    /// Reverse lookup by address; no side effects.
    pub fn get_account_by_address(&self, address: &Address) -> (r: Option<(u32, Account)>)
        requires
            self.wf(),
        ensures
            match r {
                Some(p) => self@.contains_key(p.0) && p.1@ == self@[p.0] && p.1@.address
                    == *address && p.1.wf(),
                None => forall|k: u32|
                    self@.contains_key(k) ==> (#[trigger] self@[k]).address != *address,
            },
    {
        let mut i: usize = 0;
        while i < self.accounts.len()
            invariant
                0 <= i <= self.accounts@.len(),
                self.wf(),
                forall|j: int| 0 <= j < i ==> (#[trigger] self.accounts@[j]).1@.address != *address,
            decreases self.accounts@.len() - i,
        {
            let p = &self.accounts[i];
            if addr_eq(&p.1.address, address) {
                proof {
                    assert(self.entries()[i as int] == (p.0, p.1@));
                    lemma_assoc_index(self.entries(), i as int);
                }
                return Some((p.0, p.1.clone()));
            }
            proof {
                assert(self.accounts@[i as int].1@.address != *address);
            }
            i += 1;
        }
        proof {
            assert forall|k: u32| self@.contains_key(k) implies (#[trigger] self@[k]).address
                != *address by {
                lemma_assoc_contains(self.entries(), k);
                let j = choose|j: int|
                    0 <= j < self.entries().len() && (#[trigger] self.entries()[j]).0 == k;
                lemma_assoc_index(self.entries(), j);
                assert(self@[k] == self.accounts@[j].1@);
            }
        }
        None
    }

    /// Replaces the full record for `id` atomically; the only mutation entry
    /// point of the ledger. The caller keeps addresses distinct: the new
    /// account's address may not be held by any other identifier.
    pub fn insert_account(&mut self, id: u32, account: Account)
        requires
            old(self).wf(),
            account.wf(),
            forall|k: u32|
                old(self)@.contains_key(k) && k != id ==> (#[trigger] old(self)@[k]).address
                    != account@.address,
        ensures
            final(self).wf(),
            final(self)@ == old(self)@.insert(id, account@),
    {
        let ghost s0 = *old(self);
        let pos = self.position_of_id(id);
        match pos {
            Some(i) => {
                proof {
                    assert(s0.entries()[i as int] == (id, s0.accounts@[i as int].1@));
                    lemma_assoc_update(s0.entries(), i as int, account@);
                }
                self.accounts[i] = (id, account);
                proof {
                    assert(self.entries() =~= s0.entries().update(i as int, (id, account@)));
                    assert(forall|k: u32|
                        s0@.contains_key(k) && k != id ==> (#[trigger] s0@[k]).address
                            != account@.address);
                    lemma_insert_wf(s0, *self, i as int, id, account@);
                }
            },
            None => {
                proof {
                    assert forall|j: int| 0 <= j < s0.entries().len() implies (
                    #[trigger] s0.entries()[j]).0 != id by {
                        assert(s0.entries()[j].0 == s0.accounts@[j].0);
                    }
                    lemma_assoc_push(s0.entries(), id, account@);
                    lemma_assoc_contains(s0.entries(), id);
                }
                self.accounts.push((id, account));
                proof {
                    assert(self.entries() =~= s0.entries().push((id, account@)));
                    assert(forall|k: u32|
                        s0@.contains_key(k) && k != id ==> (#[trigger] s0@[k]).address
                            != account@.address);
                    lemma_append_wf(s0, *self, id, account@);
                }
            },
        }
    }
}

/// Replacing the record of an identifier already present keeps the ledger
/// well formed: addresses of the other entries are untouched, and the new
/// address is fresh among them by the caller's obligation.
proof fn lemma_insert_wf(s0: PlasmaState, s1: PlasmaState, i: int, id: u32, a: AccountView)
    requires
        s0.wf(),
        0 <= i < s0.entries().len(),
        (s0.entries()[i]).0 == id,
        s1.entries() == s0.entries().update(i, (id, a)),
        s1.accounts@.len() == s0.accounts@.len(),
        forall|j: int| 0 <= j < s0.accounts@.len() && j != i ==> #[trigger] s1.accounts@[j]
            == s0.accounts@[j],
        s1.accounts@[i].1.wf(),
        forall|k: u32|
            s0@.contains_key(k) && k != id ==> (#[trigger] s0@[k]).address != a.address,
    ensures
        s1.wf(),
{
    lemma_assoc_update(s0.entries(), i, a);
    assert(keys_unique(s1.entries()));
    assert forall|x: int, y: int|
        0 <= x < s1.entries().len() && 0 <= y < s1.entries().len() && x != y implies (
    #[trigger] s1.entries()[x]).1.address != (#[trigger] s1.entries()[y]).1.address by {
        if x != i && y != i {
            assert(s1.entries()[x] == s0.entries()[x]);
            assert(s1.entries()[y] == s0.entries()[y]);
        } else {
            let o = if x == i {
                y
            } else {
                x
            };
            assert(s1.entries()[o] == s0.entries()[o]);
            assert(s1.entries()[i].1 == a);
            let k = (s0.entries()[o]).0;
            lemma_assoc_index(s0.entries(), o);
            assert(k != id);
            assert(s0@.contains_key(k));
            assert((s0@[k]).address != a.address);
            assert(s0@[k] == (s0.entries()[o]).1);
        }
    }
    assert forall|j: int| 0 <= j < s1.accounts@.len() implies (
    #[trigger] s1.accounts@[j]).1.wf() by {
        if j != i {
            assert(s1.accounts@[j] == s0.accounts@[j]);
        }
    }
}

/// Appending a record with a fresh identifier and fresh address keeps the
/// ledger well formed.
proof fn lemma_append_wf(s0: PlasmaState, s1: PlasmaState, id: u32, a: AccountView)
    requires
        s0.wf(),
        forall|j: int| 0 <= j < s0.entries().len() ==> (#[trigger] s0.entries()[j]).0 != id,
        s1.entries() == s0.entries().push((id, a)),
        s1.accounts@.len() == s0.accounts@.len() + 1,
        forall|j: int| 0 <= j < s0.accounts@.len() ==> #[trigger] s1.accounts@[j]
            == s0.accounts@[j],
        s1.accounts@[s0.accounts@.len() as int].1.wf(),
        forall|k: u32|
            s0@.contains_key(k) && k != id ==> (#[trigger] s0@[k]).address != a.address,
    ensures
        s1.wf(),
{
    lemma_assoc_push(s0.entries(), id, a);
    assert(keys_unique(s1.entries()));
    let n = s0.entries().len() as int;
    assert forall|x: int, y: int|
        0 <= x < s1.entries().len() && 0 <= y < s1.entries().len() && x != y implies (
    #[trigger] s1.entries()[x]).1.address != (#[trigger] s1.entries()[y]).1.address by {
        if x < n && y < n {
            assert(s1.entries()[x] == s0.entries()[x]);
            assert(s1.entries()[y] == s0.entries()[y]);
        } else {
            let o = if x < n {
                x
            } else {
                y
            };
            assert(s1.entries()[o] == s0.entries()[o]);
            assert(s1.entries()[n].1 == a);
            let k = (s0.entries()[o]).0;
            lemma_assoc_index(s0.entries(), o);
            assert(k != id);
            assert(s0@.contains_key(k));
            assert((s0@[k]).address != a.address);
            assert(s0@[k] == (s0.entries()[o]).1);
        }
    }
    assert forall|j: int| 0 <= j < s1.accounts@.len() implies (
    #[trigger] s1.accounts@[j]).1.wf() by {
        if j < s0.accounts@.len() {
            assert(s1.accounts@[j] == s0.accounts@[j]);
        }
    }
}

/// Two distinct identifiers of a well-formed ledger never share an address.
pub proof fn lemma_state_address_unique(s: PlasmaState, id1: u32, id2: u32)
    requires
        s.wf(),
        s@.contains_key(id1),
        s@.contains_key(id2),
        id1 != id2,
    ensures
        s@[id1].address != s@[id2].address,
{
    lemma_assoc_contains(s.entries(), id1);
    lemma_assoc_contains(s.entries(), id2);
    let i = choose|i: int| 0 <= i < s.entries().len() && (#[trigger] s.entries()[i]).0 == id1;
    let j = choose|j: int| 0 <= j < s.entries().len() && (#[trigger] s.entries()[j]).0 == id2;
    lemma_assoc_index(s.entries(), i);
    lemma_assoc_index(s.entries(), j);
    assert(i != j);
}

} // verus!
