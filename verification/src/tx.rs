//! The change-pub-key transaction: the signed intent to replace an account's
//! authorization key hash.

use vstd::prelude::*;

use crate::account::{Address, PubKeyHash, TokenId};

verus! {

/// Outcome of recovering the optional external signature carried by a
/// change-pub-key transaction. The cryptographic recovery itself happens in
/// the signature-verification collaborator outside this core; the core reads
/// only its outcome.
#[derive(Clone, Copy, Debug, PartialEq, Eq)]
pub enum EthSignature {
    /// No external signature was supplied. Deliberately accepted:
    /// authorization is then deferred to a mechanism outside this core.
    Absent,
    /// A signature was supplied and recovered to this signer address.
    Recovered(Address),
    /// A signature was supplied but could not be recovered.
    Unrecoverable,
}

/// A signed change-pub-key transaction as submitted, before resolution
/// against a ledger.
#[derive(Clone, Copy, Debug, PartialEq, Eq)]
pub struct ChangePubKey {
    /// The account id the transaction declares; must match the id the
    /// ledger resolves `account` to.
    pub account_id: u32,
    /// Address of the account whose key hash is to change.
    pub account: Address,
    /// The new authorization key hash.
    pub new_pk_hash: PubKeyHash,
    /// Token the fee is charged in.
    pub fee_token: TokenId,
    /// Fee amount debited from the account's `fee_token` balance.
    pub fee: u128,
    /// Must equal the account's current nonce.
    pub nonce: u32,
    /// Outcome of recovering the optional external signature.
    pub eth_signature: EthSignature,
}

impl ChangePubKey {
    /// Whether the transaction's signature evidence is acceptable: either no
    /// signature was supplied, or the supplied one recovered to the address
    /// of the account it targets.
    pub open spec fn signature_acceptable(self) -> bool {
        match self.eth_signature {
            EthSignature::Absent => true,
            EthSignature::Recovered(signer) => signer == self.account,
            EthSignature::Unrecoverable => false,
        }
    }
}

} // verus!
