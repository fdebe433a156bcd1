use plasma::account::Account;
use plasma::errors::{StateError, TxError, ValidationError};
use plasma::fees::{CollectedFee, FeeAccumulator};
use plasma::ops::FranklinOp;
use plasma::params::MAX_ACCOUNT_ID;
use plasma::state::PlasmaState;
use plasma::tx::{ChangePubKey, EthSignature};
use plasma::updates::{AccountUpdate, AccountUpdateLog};

fn bytes20(b: u8) -> [u8; 20] {
    [b; 20]
}

fn demo_address() -> [u8; 20] {
    let mut a = [0u8; 20];
    a[0] = 0xAB;
    a[1] = 0xC0;
    a
}

fn demo_state() -> PlasmaState {
    let mut state = PlasmaState::new();
    let account = Account {
        address: demo_address(),
        pub_key_hash: bytes20(0x11),
        nonce: 5,
        balances: vec![(0u32, 100u128)],
    };
    state.insert_account(34, account);
    state
}

fn demo_tx() -> ChangePubKey {
    ChangePubKey {
        account_id: 34,
        account: demo_address(),
        new_pk_hash: bytes20(0x22),
        fee_token: 0,
        fee: 3,
        nonce: 5,
        eth_signature: EthSignature::Absent,
    }
}

#[test]
fn change_pubkey_success() {
    let mut state = demo_state();
    let tx = demo_tx();
    let op = state.create_op(tx).expect("resolve should succeed");
    assert_eq!(op.account_id, 34);
    assert_eq!(op.tx, tx);
    let (fee, updates) = state.apply_op(&op).expect("apply should succeed");
    assert_eq!(fee, Some(CollectedFee { token: 0, amount: 3 }));
    assert_eq!(
        updates,
        vec![
            (
                34,
                AccountUpdate::ChangePubKeyHash {
                    old_pub_key_hash: bytes20(0x11),
                    old_nonce: 5,
                    new_pub_key_hash: bytes20(0x22),
                    new_nonce: 6,
                }
            ),
            (
                34,
                AccountUpdate::UpdateBalance {
                    balance_update: (0, 100, 97),
                    old_nonce: 5,
                    new_nonce: 6,
                }
            ),
        ]
    );
    let account = state.get_account(34).expect("account should exist");
    assert_eq!(account.nonce, 6);
    assert_eq!(account.pub_key_hash, bytes20(0x22));
    assert_eq!(account.get_balance(0), 97);
    assert_eq!(account.address, demo_address());
}

#[test]
fn nonce_mismatch_leaves_account_unchanged() {
    let mut state = demo_state();
    let before = state.clone();
    let mut tx = demo_tx();
    tx.nonce = 4;
    let op = state.create_op(tx).expect("resolve should succeed");
    let r = state.apply_op(&op);
    assert_eq!(r, Err(StateError::NonceMismatch));
    assert_eq!(state, before);
    let account = state.get_account(34).expect("account should exist");
    assert_eq!(account.nonce, 5);
    assert_eq!(account.get_balance(0), 100);
    assert_eq!(account.pub_key_hash, bytes20(0x11));
}

#[test]
fn insufficient_balance_leaves_account_unchanged() {
    let mut state = demo_state();
    let before = state.clone();
    let mut tx = demo_tx();
    tx.fee = 150;
    let op = state.create_op(tx).expect("resolve should succeed");
    let r = state.apply_op(&op);
    assert_eq!(r, Err(StateError::InsufficientBalance));
    assert_eq!(state, before);
    let account = state.get_account(34).expect("account should exist");
    assert_eq!(account.nonce, 5);
    assert_eq!(account.get_balance(0), 100);
    assert_eq!(account.pub_key_hash, bytes20(0x11));
}

#[test]
fn resolve_rejects_account_id_mismatch() {
    let state = demo_state();
    let mut tx = demo_tx();
    tx.account_id = 35;
    assert_eq!(state.create_op(tx), Err(ValidationError::AccountIdMismatch));
}

#[test]
fn resolve_rejects_account_id_out_of_range() {
    let mut state = PlasmaState::new();
    let account = Account {
        address: demo_address(),
        pub_key_hash: bytes20(0x11),
        nonce: 0,
        balances: vec![],
    };
    state.insert_account(MAX_ACCOUNT_ID + 1, account);
    let mut tx = demo_tx();
    tx.account_id = MAX_ACCOUNT_ID + 1;
    tx.nonce = 0;
    assert_eq!(state.create_op(tx), Err(ValidationError::AccountIdOutOfRange));
}

#[test]
fn resolve_rejects_unknown_address() {
    let state = PlasmaState::new();
    let tx = demo_tx();
    assert_eq!(state.create_op(tx), Err(ValidationError::AccountNotFound));
}

#[test]
fn resolve_checks_signature_evidence() {
    let state = demo_state();

    let mut tx = demo_tx();
    tx.eth_signature = EthSignature::Recovered(demo_address());
    assert!(state.create_op(tx).is_ok());

    tx.eth_signature = EthSignature::Recovered(bytes20(0x77));
    assert_eq!(state.create_op(tx), Err(ValidationError::SignatureInvalid));

    tx.eth_signature = EthSignature::Unrecoverable;
    assert_eq!(state.create_op(tx), Err(ValidationError::SignatureInvalid));

    tx.eth_signature = EthSignature::Absent;
    assert!(state.create_op(tx).is_ok());
}

#[test]
fn apply_tx_tags_executed_operation() {
    let mut state = demo_state();
    let tx = demo_tx();
    let success = state.apply_tx(tx).expect("execute should succeed");
    assert_eq!(success.fee, Some(CollectedFee { token: 0, amount: 3 }));
    assert_eq!(success.updates.len(), 2);
    let FranklinOp::ChangePubKeyOffchain(op) = success.executed_op;
    assert_eq!(op.account_id, 34);
    assert_eq!(op.tx, tx);
}

#[test]
fn apply_tx_validation_failure_leaves_state_unchanged() {
    let mut state = demo_state();
    let before = state.clone();
    let mut tx = demo_tx();
    tx.account_id = 9;
    let r = state.apply_tx(tx);
    assert_eq!(
        r,
        Err(TxError::Validation(ValidationError::AccountIdMismatch))
    );
    assert_eq!(state, before);
}

#[test]
fn apply_tx_state_failure_is_wrapped() {
    let mut state = demo_state();
    let mut tx = demo_tx();
    tx.nonce = 7;
    let r = state.apply_tx(tx);
    assert_eq!(r, Err(TxError::State(StateError::NonceMismatch)));
}

#[test]
fn replay_reproduces_post_operation_state() {
    let mut state = demo_state();
    let mut replayed = state.clone();
    let success = state.apply_tx(demo_tx()).expect("execute should succeed");
    let all_applied = replayed.apply_account_updates(&success.updates);
    assert!(all_applied);
    assert_eq!(replayed, state);
}

#[test]
fn replay_of_full_log_reproduces_block() {
    let mut state = demo_state();
    let mut replayed = state.clone();
    let mut log = AccountUpdateLog::new();

    let first = state.apply_tx(demo_tx()).expect("first operation");
    log.append(&first.updates);

    let mut second_tx = demo_tx();
    second_tx.nonce = 6;
    second_tx.new_pk_hash = bytes20(0x33);
    second_tx.fee = 7;
    let second = state.apply_tx(second_tx).expect("second operation");
    log.append(&second.updates);

    assert_eq!(log.entries.len(), 4);
    let all_applied = replayed.apply_account_updates(&log.entries);
    assert!(all_applied);
    assert_eq!(replayed, state);

    let account = state.get_account(34).expect("account should exist");
    assert_eq!(account.nonce, 7);
    assert_eq!(account.pub_key_hash, bytes20(0x33));
    assert_eq!(account.get_balance(0), 90);
}

#[test]
fn create_and_delete_updates_round_trip() {
    let mut state = PlasmaState::new();
    let created = AccountUpdate::Create {
        address: demo_address(),
        nonce: 2,
    };
    assert!(state.apply_account_update(7, &created));
    let account = state.get_account(7).expect("account should exist");
    assert_eq!(account.address, demo_address());
    assert_eq!(account.nonce, 2);
    assert_eq!(account.pub_key_hash, [0u8; 20]);
    assert_eq!(account.get_balance(0), 0);

    // a second creation under the same address is not applicable
    assert!(!state.apply_account_update(8, &created));

    let deleted = AccountUpdate::Delete {
        address: demo_address(),
        nonce: 2,
    };
    assert!(state.apply_account_update(7, &deleted));
    assert!(state.get_account(7).is_none());
    assert_eq!(state, PlasmaState::new());
}

#[test]
fn update_on_missing_account_is_not_applicable() {
    let mut state = PlasmaState::new();
    let upd = AccountUpdate::UpdateBalance {
        balance_update: (0, 0, 10),
        old_nonce: 0,
        new_nonce: 0,
    };
    assert!(!state.apply_account_update(1, &upd));
    assert_eq!(state, PlasmaState::new());
}

#[test]
fn zero_fee_on_absent_token_is_charged() {
    let mut state = demo_state();
    let mut tx = demo_tx();
    tx.fee_token = 9;
    tx.fee = 0;
    let (fee, updates) = state
        .apply_tx(tx)
        .map(|s| (s.fee, s.updates))
        .expect("execute should succeed");
    assert_eq!(fee, Some(CollectedFee { token: 9, amount: 0 }));
    assert_eq!(
        updates[1],
        (
            34,
            AccountUpdate::UpdateBalance {
                balance_update: (9, 0, 0),
                old_nonce: 5,
                new_nonce: 6,
            }
        )
    );
    let account = state.get_account(34).expect("account should exist");
    assert_eq!(account.get_balance(9), 0);
    assert_eq!(account.get_balance(0), 100);
}

#[test]
fn fee_equal_to_balance_empties_it() {
    let mut state = demo_state();
    let mut tx = demo_tx();
    tx.fee = 100;
    state.apply_tx(tx).expect("execute should succeed");
    let account = state.get_account(34).expect("account should exist");
    assert_eq!(account.get_balance(0), 0);
}

#[test]
fn get_account_by_address_finds_the_holder() {
    let state = demo_state();
    let (id, account) = state
        .get_account_by_address(&demo_address())
        .expect("holder should exist");
    assert_eq!(id, 34);
    assert_eq!(account.nonce, 5);
    assert!(state.get_account_by_address(&bytes20(0x99)).is_none());
}

#[test]
fn insert_account_replaces_the_record_atomically() {
    let mut state = demo_state();
    let replacement = Account {
        address: demo_address(),
        pub_key_hash: bytes20(0x44),
        nonce: 9,
        balances: vec![(1u32, 5u128)],
    };
    state.insert_account(34, replacement);
    let account = state.get_account(34).expect("account should exist");
    assert_eq!(account.nonce, 9);
    assert_eq!(account.pub_key_hash, bytes20(0x44));
    assert_eq!(account.get_balance(0), 0);
    assert_eq!(account.get_balance(1), 5);
}

#[test]
fn fee_accumulator_sums_per_token() {
    let mut acc = FeeAccumulator::new();
    assert!(acc.add_fee(&CollectedFee { token: 0, amount: 3 }));
    assert!(acc.add_fee(&CollectedFee { token: 1, amount: 10 }));
    assert!(acc.add_fee(&CollectedFee { token: 0, amount: 4 }));
    assert_eq!(acc.total_of(0), 7);
    assert_eq!(acc.total_of(1), 10);
    assert_eq!(acc.total_of(2), 0);
}

#[test]
fn fee_accumulator_refuses_overflow() {
    let mut acc = FeeAccumulator::new();
    assert!(acc.add_fee(&CollectedFee { token: 0, amount: u128::MAX }));
    assert!(!acc.add_fee(&CollectedFee { token: 0, amount: 1 }));
    assert_eq!(acc.total_of(0), u128::MAX);
}

#[test]
fn resolve_accepts_the_largest_account_id() {
    let mut state = PlasmaState::new();
    let account = Account {
        address: demo_address(),
        pub_key_hash: bytes20(0x11),
        nonce: 0,
        balances: vec![(0u32, 10u128)],
    };
    state.insert_account(MAX_ACCOUNT_ID, account);
    let mut tx = demo_tx();
    tx.account_id = MAX_ACCOUNT_ID;
    tx.nonce = 0;
    let op = state.create_op(tx).expect("the boundary id is still in range");
    assert_eq!(op.account_id, MAX_ACCOUNT_ID);
}
