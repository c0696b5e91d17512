use evice_blockchain::blockchain::{Blockchain, Transaction};
use evice_blockchain::crypto::KeyPair;
use evice_blockchain::mempool::Mempool;
use evice_blockchain::state::{Account, Address};

#[test]
fn test_full_transaction_to_block_flow() {
    let authority_keys = KeyPair::new();
    let user_keys = KeyPair::new();
    let recipient_address: Address = KeyPair::new().public_key_bytes();

    let mut blockchain = Blockchain::new();
    let mut mempool = Mempool::new();

    let initial_user_account = Account { balance: 1000, nonce: 0 };
    blockchain.set_account(&user_keys.public_key_bytes(), &initial_user_account);

    let tx = Transaction::new_signed(&user_keys, recipient_address.clone(), 150, 0);

    assert!(mempool.add_transaction(tx, blockchain.state()).is_ok());

    let transactions_for_block = mempool.get_transactions(1);
    assert_eq!(transactions_for_block.len(), 1);

    let new_block = blockchain.create_block(&authority_keys, transactions_for_block, 1704067210000);
    let result = blockchain.add_block(new_block);
    assert!(result, "Penambahan blok seharusnya berhasil");

    assert_eq!(blockchain.chain_len(), 2, "Blockchain seharusnya memiliki 2 blok (genesis + 1)");

    let final_user_account = blockchain.get_account(&user_keys.public_key_bytes()).unwrap();
    assert_eq!(final_user_account.balance, 850, "Saldo pengirim seharusnya berkurang");
    assert_eq!(final_user_account.nonce, 1, "Nonce pengirim seharusnya bertambah");

    let final_recipient_account = blockchain.get_account(&recipient_address).unwrap();
    assert_eq!(final_recipient_account.balance, 150, "Saldo penerima seharusnya bertambah");

    assert_eq!(mempool.get_transactions(1).len(), 0, "Mempool seharusnya kosong setelah transaksi diproses");
}
