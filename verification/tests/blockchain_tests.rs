use evice_blockchain::blockchain::{Block, Blockchain, Transaction};
use sha2::{Digest, Sha256};
use evice_blockchain::crypto::KeyPair;
use evice_blockchain::state::{Account, Address};

fn create_test_tx(sender_key: &KeyPair, recipient: Address, amount: u64, nonce: u64) -> Transaction {
    Transaction::new_signed(sender_key, recipient, amount, nonce)
}

#[test]
fn test_add_valid_block() {
    let mut blockchain = Blockchain::new();
    let authority = KeyPair::new();
    let user1 = KeyPair::new();
    let user2_address = KeyPair::new().public_key_bytes();

    let user1_account = Account { balance: 1000, nonce: 0 };
    blockchain.set_account(&user1.public_key_bytes(), &user1_account);

    let tx = create_test_tx(&user1, user2_address, 100, 0);
    let block = blockchain.create_block(&authority, vec![tx], 1704067210000);

    let result = blockchain.add_block(block);

    assert!(result);
    assert_eq!(blockchain.chain_len(), 2);
    let updated_user1_account = blockchain.get_account(&user1.public_key_bytes()).unwrap();
    assert_eq!(updated_user1_account.balance, 900);
    assert_eq!(updated_user1_account.nonce, 1);
}

#[test]
fn test_reject_block_with_bad_prev_hash() {
    let mut blockchain = Blockchain::new();
    let authority = KeyPair::new();

    let mut block = blockchain.create_block(&authority, vec![], 1704067210000);
    block.prev_hash = vec![1, 2, 3];

    let result = blockchain.add_block(block);
    assert!(!result);
    assert_eq!(blockchain.chain_len(), 1);
}

#[test]
fn test_reject_block_with_bad_signature() {
    let mut blockchain = Blockchain::new();
    let authority = KeyPair::new();
    let fake_authority = KeyPair::new();

    let mut block = blockchain.create_block(&authority, vec![], 1704067210000);
    let hash = Block::calculate_hash(&block);
    block.signature = fake_authority.sign(&hash);

    let result = blockchain.add_block(block);
    assert!(!result);
    assert_eq!(blockchain.chain_len(), 1);
}

#[test]
fn test_atomic_revert_on_invalid_transaction() {
    let mut blockchain = Blockchain::new();
    let authority = KeyPair::new();
    let user1 = KeyPair::new();
    let user2 = KeyPair::new();
    let user3_address = KeyPair::new().public_key_bytes();

    let user1_account = Account { balance: 1000, nonce: 0 };
    blockchain.set_account(&user1.public_key_bytes(), &user1_account);
    let user2_account = Account { balance: 50, nonce: 0 };
    blockchain.set_account(&user2.public_key_bytes(), &user2_account);

    let valid_tx = create_test_tx(&user1, user3_address.clone(), 100, 0);
    let invalid_tx = create_test_tx(&user2, user3_address, 100, 0);

    let block = blockchain.create_block(&authority, vec![valid_tx, invalid_tx], 1704067210000);

    let result = blockchain.add_block(block);
    assert!(!result);
    assert_eq!(blockchain.chain_len(), 1);

    let user1_account_after = blockchain.get_account(&user1.public_key_bytes()).unwrap();
    assert_eq!(user1_account_after.balance, 1000);
    assert_eq!(user1_account_after.nonce, 0);
    let user2_account_after = blockchain.get_account(&user2.public_key_bytes()).unwrap();
    assert_eq!(user2_account_after.balance, 50);
    assert_eq!(user2_account_after.nonce, 0);
}

#[test]
fn test_genesis_blocks_are_byte_identical() {
    let g1 = Block::genesis();
    let g2 = Block::genesis();
    assert_eq!(g1.index, g2.index);
    assert_eq!(g1.timestamp, g2.timestamp);
    assert_eq!(g1.prev_hash, g2.prev_hash);
    assert_eq!(g1.hash, g2.hash);
    assert_eq!(g1.transactions.len(), 0);
    assert_eq!(g2.transactions.len(), 0);
    assert_eq!(g1.signature, g2.signature);
    assert_eq!(g1.authority, g2.authority);
    assert_eq!(g1.index, 0);
    assert_eq!(g1.timestamp, 1704067200000);
    assert_eq!(g1.prev_hash, vec![0u8; 32]);
    assert_eq!(g1.hash.len(), 32);
}

#[test]
fn test_block_hash_matches_manual_computation() {
    let user = KeyPair::new();
    let recipient = KeyPair::new().public_key_bytes();
    let authority = KeyPair::new();
    let blockchain = Blockchain::new();
    let tx = create_test_tx(&user, recipient, 7, 0);
    let block = blockchain.create_block(&authority, vec![tx], 12345);

    let mut tx_hashes: Vec<u8> = Vec::new();
    for tx in &block.transactions {
        tx_hashes.extend_from_slice(&tx.message_hash());
    }
    let inner = Sha256::digest(&tx_hashes);
    let mut data: Vec<u8> = Vec::new();
    data.extend_from_slice(&block.index.to_be_bytes());
    data.extend_from_slice(&block.timestamp.to_be_bytes());
    data.extend_from_slice(&block.prev_hash);
    data.extend_from_slice(&block.authority);
    data.extend_from_slice(&inner);
    let expected: Vec<u8> = Sha256::digest(&data).to_vec();

    assert_eq!(block.hash, expected);
    assert_eq!(Block::calculate_hash(&block), expected);
}

#[test]
fn test_tx_message_hash_matches_manual_computation() {
    let user = KeyPair::new();
    let recipient = KeyPair::new().public_key_bytes();
    let tx = create_test_tx(&user, recipient.clone(), 250, 3);

    let mut data: Vec<u8> = Vec::new();
    data.extend_from_slice(&tx.sender);
    data.extend_from_slice(&recipient);
    data.extend_from_slice(&250u64.to_be_bytes());
    data.extend_from_slice(&3u64.to_be_bytes());
    let expected: Vec<u8> = Sha256::digest(&data).to_vec();

    assert_eq!(tx.message_hash(), expected);
}

#[test]
fn test_reject_block_with_wrong_index() {
    let mut blockchain = Blockchain::new();
    let authority = KeyPair::new();

    let mut block = blockchain.create_block(&authority, vec![], 1704067210000);
    block.index = 5;

    assert!(!blockchain.add_block(block));
    assert_eq!(blockchain.chain_len(), 1);
}

#[test]
fn test_reject_block_with_tampered_hash() {
    let mut blockchain = Blockchain::new();
    let authority = KeyPair::new();

    let mut block = blockchain.create_block(&authority, vec![], 1704067210000);
    block.timestamp += 1;

    assert!(!blockchain.add_block(block));
    assert_eq!(blockchain.chain_len(), 1);
}
