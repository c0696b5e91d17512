use evice_blockchain::blockchain::Transaction;
use evice_blockchain::crypto::KeyPair;
use evice_blockchain::state::{
    decode_account, encode_account, Account, AccountMap, StateMachine, TxError,
};

#[test]
fn test_account_codec_roundtrip() {
    let account = Account { balance: 123456789, nonce: 42 };
    let encoded = encode_account(&account);
    assert_eq!(encoded.len(), 16);
    assert_eq!(decode_account(&encoded), Some(account));
}

#[test]
fn test_account_codec_exact_bytes() {
    let account = Account { balance: 1, nonce: 2 };
    let encoded = encode_account(&account);
    assert_eq!(encoded, vec![0, 0, 0, 0, 0, 0, 0, 1, 0, 0, 0, 0, 0, 0, 0, 2]);
}

#[test]
fn test_account_codec_rejects_wrong_length() {
    assert_eq!(decode_account(&[0u8; 15]), None);
    assert_eq!(decode_account(&[0u8; 17]), None);
    assert_eq!(decode_account(&[]), None);
}

#[test]
fn test_set_and_get_account() {
    let mut state = StateMachine::new();
    let addr = KeyPair::new().public_key_bytes();
    assert_eq!(state.get_account(&addr), None);

    state.set_account(&addr, &Account { balance: 10, nonce: 1 });
    assert_eq!(state.get_account(&addr), Some(Account { balance: 10, nonce: 1 }));

    state.set_account(&addr, &Account { balance: 20, nonce: 2 });
    assert_eq!(state.get_account(&addr), Some(Account { balance: 20, nonce: 2 }));
}

#[test]
fn test_validate_rejects_unknown_sender() {
    let state = StateMachine::new();
    let user = KeyPair::new();
    let recipient = KeyPair::new().public_key_bytes();
    let tx = Transaction::new_signed(&user, recipient, 10, 0);
    let mut staging = AccountMap::new();
    let r = state.validate_transaction_in_block(&tx, &mut staging);
    assert_eq!(r, Err(TxError::UnknownSender));
}

#[test]
fn test_validate_rejects_bad_nonce() {
    let mut state = StateMachine::new();
    let user = KeyPair::new();
    let recipient = KeyPair::new().public_key_bytes();
    state.set_account(&user.public_key_bytes(), &Account { balance: 100, nonce: 1 });
    let tx = Transaction::new_signed(&user, recipient, 10, 0);
    let mut staging = AccountMap::new();
    let r = state.validate_transaction_in_block(&tx, &mut staging);
    assert_eq!(r, Err(TxError::BadNonce));
}

#[test]
fn test_validate_rejects_insufficient_balance() {
    let mut state = StateMachine::new();
    let user = KeyPair::new();
    let recipient = KeyPair::new().public_key_bytes();
    state.set_account(&user.public_key_bytes(), &Account { balance: 5, nonce: 0 });
    let tx = Transaction::new_signed(&user, recipient, 10, 0);
    let mut staging = AccountMap::new();
    let r = state.validate_transaction_in_block(&tx, &mut staging);
    assert_eq!(r, Err(TxError::InsufficientBalance));
}

#[test]
fn test_validate_rejects_balance_overflow() {
    let mut state = StateMachine::new();
    let user = KeyPair::new();
    let rich = KeyPair::new().public_key_bytes();
    state.set_account(&user.public_key_bytes(), &Account { balance: 100, nonce: 0 });
    state.set_account(&rich, &Account { balance: u64::MAX, nonce: 0 });
    let tx = Transaction::new_signed(&user, rich, 1, 0);
    let mut staging = AccountMap::new();
    let r = state.validate_transaction_in_block(&tx, &mut staging);
    assert_eq!(r, Err(TxError::BalanceOverflow));
}

#[test]
fn test_validate_rejects_nonce_overflow() {
    let mut state = StateMachine::new();
    let user = KeyPair::new();
    let recipient = KeyPair::new().public_key_bytes();
    state.set_account(&user.public_key_bytes(), &Account { balance: 100, nonce: u64::MAX });
    let tx = Transaction::new_signed(&user, recipient, 10, u64::MAX);
    let mut staging = AccountMap::new();
    let r = state.validate_transaction_in_block(&tx, &mut staging);
    assert_eq!(r, Err(TxError::NonceOverflow));
}

#[test]
fn test_validate_stages_without_touching_store() {
    let mut state = StateMachine::new();
    let user = KeyPair::new();
    let recipient_addr = KeyPair::new().public_key_bytes();
    let user_addr = user.public_key_bytes();
    state.set_account(&user_addr, &Account { balance: 100, nonce: 0 });

    let tx = Transaction::new_signed(&user, recipient_addr.clone(), 30, 0);
    let mut staging = AccountMap::new();
    assert_eq!(state.validate_transaction_in_block(&tx, &mut staging), Ok(()));

    // The staged copies carry the transfer; the store itself is untouched.
    assert_eq!(staging.get(&user_addr), Some(Account { balance: 70, nonce: 1 }));
    assert_eq!(staging.get(&recipient_addr), Some(Account { balance: 30, nonce: 0 }));
    assert_eq!(state.get_account(&user_addr), Some(Account { balance: 100, nonce: 0 }));
    assert_eq!(state.get_account(&recipient_addr), None);
}

#[test]
fn test_self_transfer_preserves_balance_and_bumps_nonce() {
    // Sequenced read-modify-write: the debit is staged first and the credit
    // reads the debited copy, so a self-transfer nets to the same balance.
    let mut state = StateMachine::new();
    let user = KeyPair::new();
    let user_addr = user.public_key_bytes();
    state.set_account(&user_addr, &Account { balance: 100, nonce: 0 });

    let tx = Transaction::new_signed(&user, user_addr.clone(), 30, 0);
    let mut staging = AccountMap::new();
    assert_eq!(state.validate_transaction_in_block(&tx, &mut staging), Ok(()));
    assert_eq!(staging.get(&user_addr), Some(Account { balance: 100, nonce: 1 }));
}

#[test]
fn test_self_transfer_of_full_balance_does_not_overflow() {
    // The credit reads the debited sender, so even a self-transfer from an
    // account near the top of the u64 range stays in bounds.
    let mut state = StateMachine::new();
    let user = KeyPair::new();
    let user_addr = user.public_key_bytes();
    state.set_account(&user_addr, &Account { balance: u64::MAX, nonce: 0 });

    let tx = Transaction::new_signed(&user, user_addr.clone(), u64::MAX, 0);
    let mut staging = AccountMap::new();
    assert_eq!(state.validate_transaction_in_block(&tx, &mut staging), Ok(()));
    assert_eq!(staging.get(&user_addr), Some(Account { balance: u64::MAX, nonce: 1 }));
}

#[test]
fn test_bootstrap_accounts_funds_two_accounts() {
    let mut state = StateMachine::new();
    let (genesis_keys, voter_keys) = state.bootstrap_accounts();
    assert_eq!(
        state.get_account(&genesis_keys.public_key_bytes()),
        Some(Account { balance: 1_000_000_000, nonce: 0 })
    );
    assert_eq!(
        state.get_account(&voter_keys.public_key_bytes()),
        Some(Account { balance: 500, nonce: 0 })
    );
}
