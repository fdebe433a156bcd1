//! Core state-transition engine of a layer-2 rollup ledger.
//!
//! The ledger ([`state::PlasmaState`]) maps bounded account identifiers to
//! accounts. Each operation kind is applied through a resolve / apply
//! contract: `create_op` validates a signed transaction against the current
//! ledger without mutating it, and `apply_op` performs the single atomic
//! mutation, emitting an ordered list of [`updates::AccountUpdate`] diff
//! records and an optional collected fee. Replaying the emitted diff records
//! onto the pre-operation ledger reproduces the post-operation ledger exactly.

pub mod account;
pub mod assoc;
pub mod change_pubkey;
pub mod encode;
pub mod errors;
pub mod fees;
pub mod ops;
pub mod params;
pub mod rpc_params;
pub mod state;
pub mod tx;
pub mod updates;
