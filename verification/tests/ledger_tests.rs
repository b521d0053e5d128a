use rchain::AccountMap;
use rchain::AccountType;
use rchain::Block;
use rchain::Blockchain;
use rchain::ChainError;
use rchain::ExecError;
use rchain::Transaction;
use rchain::TransactionData;
use rchain::ValidityError;
use rchain::WorldState;

fn balance(bc: &Blockchain, id: &str) -> u128 {
    bc.get_account_by_id(&id.to_string()).expect("account should exist").tokens()
}

/// A genesis block creating the given users and granting each
/// 100,000,000 tokens.
fn funded_genesis(users: &[&str]) -> Block {
    let mut genesis = Block::new(None);
    for user in users {
        genesis.add_transaction(Transaction::new(
            user.to_string(),
            TransactionData::CreateUserAccount(user.to_string()),
            0,
        ));
        genesis.add_transaction(Transaction::new(
            user.to_string(),
            TransactionData::CreateTokens { receiver: user.to_string(), amount: 100_000_000 },
            0,
        ));
    }
    genesis
}

/// A funded two-account chain plus one transfer block: the running
/// example that the tamper scenarios start from.
fn two_block_chain() -> Blockchain {
    let mut bc = Blockchain::new();
    bc.append_block(funded_genesis(&["alice", "bob"])).expect("genesis should be accepted");
    let mut block2 = Block::new(bc.get_last_block_hash());
    block2.add_transaction(Transaction::new(
        "alice".to_string(),
        TransactionData::TransferTokens { to: "bob".to_string(), amount: 1 },
        0,
    ));
    bc.append_block(block2).expect("transfer block should be accepted");
    bc
}

#[test]
fn empty_chain_shape() {
    let bc = Blockchain::new();
    assert_eq!(bc.len(), 0);
    assert_eq!(bc.get_last_block_hash(), None);
    assert!(bc.check_validity().is_ok());
    assert!(bc.get_user_ids().is_empty());
}

#[test]
fn genesis_bootstrap() {
    // The genesis block may reference a not-yet-created sender: creating
    // "alice" and minting for her in the same block succeeds.
    let mut bc = Blockchain::new();
    let mut genesis = Block::new(None);
    genesis.add_transaction(Transaction::new(
        "alice".to_string(),
        TransactionData::CreateUserAccount("alice".to_string()),
        0,
    ));
    genesis.add_transaction(Transaction::new(
        "alice".to_string(),
        TransactionData::CreateTokens { receiver: "alice".to_string(), amount: 100_000_000 },
        0,
    ));
    assert!(bc.append_block(genesis).is_ok());
    assert_eq!(bc.len(), 1);
    assert_eq!(balance(&bc, "alice"), 100_000_000);
}

#[test]
fn transfer_scenario() {
    let bc = two_block_chain();
    assert_eq!(bc.len(), 2);
    assert!(bc.check_validity().is_ok());
    assert_eq!(balance(&bc, "alice"), 99_999_999);
    assert_eq!(balance(&bc, "bob"), 100_000_001);
}

#[test]
fn last_block_hash_is_stored_hash() {
    let bc = two_block_chain();
    assert_eq!(&bc.get_last_block_hash(), &bc.blocks[1].hash);
    assert_eq!(&bc.blocks[1].prev_hash, &bc.blocks[0].hash);
}

#[test]
fn atomic_admission_rolls_back() {
    // One valid transfer followed by an overspending one: the whole block
    // is rejected, naming the second transaction, and no balance moves.
    let mut bc = Blockchain::new();
    bc.append_block(funded_genesis(&["alice", "bob"])).expect("genesis should be accepted");
    let mut block = Block::new(bc.get_last_block_hash());
    block.add_transaction(Transaction::new(
        "alice".to_string(),
        TransactionData::TransferTokens { to: "bob".to_string(), amount: 1 },
        0,
    ));
    block.add_transaction(Transaction::new(
        "alice".to_string(),
        TransactionData::TransferTokens { to: "bob".to_string(), amount: 100_000_001 },
        0,
    ));
    let res = bc.append_block(block);
    assert_eq!(
        res,
        Err(ChainError::TransactionFailed { index: 2, cause: ExecError::ArithmeticFault })
    );
    assert_eq!(bc.len(), 1);
    assert_eq!(balance(&bc, "alice"), 100_000_000);
    assert_eq!(balance(&bc, "bob"), 100_000_000);
}

#[test]
fn arithmetic_safety_on_overspend() {
    // Executed directly against a world state: overspending fails with
    // ArithmeticFault and mutates neither balance.
    let mut world = AccountMap::new();
    world.create_account("alice".to_string(), AccountType::User).unwrap();
    world.create_account("bob".to_string(), AccountType::User).unwrap();
    assert!(world.set_account_tokens(&"alice".to_string(), 10));
    let tx = Transaction::new(
        "alice".to_string(),
        TransactionData::TransferTokens { to: "bob".to_string(), amount: 11 },
        0,
    );
    assert_eq!(tx.execute(&mut world, &false), Err(ExecError::ArithmeticFault));
    assert_eq!(world.get_account_by_id(&"alice".to_string()).unwrap().tokens(), 10);
    assert_eq!(world.get_account_by_id(&"bob".to_string()).unwrap().tokens(), 0);
}

#[test]
fn tamper_detection() {
    // Bob rewrites the transfer amount in place; the block no longer
    // verifies and the validity check names it.
    let mut bc = two_block_chain();
    match &mut bc.blocks[1].transactions[0].record {
        TransactionData::TransferTokens { amount, .. } => {
            *amount = 100;
        },
        _ => panic!("expected a token transfer"),
    }
    assert!(!bc.blocks[1].verify_own_hash());
    match bc.check_validity() {
        Err(ValidityError::StoredHashMismatch { block_index }) => assert_eq!(block_index, 2),
        other => panic!("expected a stored-hash mismatch, got {:?}", other),
    }
}

#[test]
fn tamper_and_rehash_breaks_link() {
    // Alice rewrites the genesis minting and also refreshes that block's
    // fingerprint; the chain now fails on the next block's linkage.
    let mut bc = two_block_chain();
    match &mut bc.blocks[0].transactions[1].record {
        TransactionData::CreateTokens { amount, .. } => {
            *amount = 100_000_000_000;
        },
        _ => panic!("expected a token minting"),
    }
    match bc.check_validity() {
        Err(ValidityError::StoredHashMismatch { block_index }) => assert_eq!(block_index, 1),
        other => panic!("expected a stored-hash mismatch, got {:?}", other),
    }
    bc.blocks[0].update_hash();
    assert!(bc.blocks[0].verify_own_hash());
    match bc.check_validity() {
        Err(ValidityError::BrokenLink { block_index, expected, actual }) => {
            assert_eq!(block_index, 2);
            assert_eq!(&Some(expected), &bc.blocks[0].hash);
            assert_eq!(&actual, &bc.blocks[1].prev_hash);
        },
        other => panic!("expected a broken link, got {:?}", other),
    }
}

#[test]
fn replay_gap_is_not_enforced() {
    // Two transfers with the identical nonce from the same sender both
    // execute: replay protection is a documented gap, not a feature.
    let mut bc = Blockchain::new();
    bc.append_block(funded_genesis(&["alice", "bob"])).expect("genesis should be accepted");
    let mut block = Block::new(bc.get_last_block_hash());
    block.add_transaction(Transaction::new(
        "alice".to_string(),
        TransactionData::TransferTokens { to: "bob".to_string(), amount: 1 },
        7,
    ));
    block.add_transaction(Transaction::new(
        "alice".to_string(),
        TransactionData::TransferTokens { to: "bob".to_string(), amount: 1 },
        7,
    ));
    assert!(bc.append_block(block).is_ok());
    assert_eq!(balance(&bc, "alice"), 99_999_998);
    assert_eq!(balance(&bc, "bob"), 100_000_002);
}

#[test]
fn admission_rejects_mismatching_hash() {
    let mut bc = Blockchain::new();
    let mut block = Block::new(None);
    block.add_transaction(Transaction::new(
        "alice".to_string(),
        TransactionData::CreateUserAccount("alice".to_string()),
        0,
    ));
    block.nonce = 5;  // content changed, fingerprint not refreshed
    assert_eq!(bc.append_block(block), Err(ChainError::HashMismatch));
    let unhashed = Block::new(None);
    assert_eq!(bc.append_block(unhashed), Err(ChainError::HashMismatch));
    assert_eq!(bc.len(), 0);
}

#[test]
fn admission_rejects_wrong_parent() {
    let mut bc = Blockchain::new();
    bc.append_block(funded_genesis(&["alice"])).expect("genesis should be accepted");
    let mut block = Block::new(None);  // should point at the genesis fingerprint
    block.add_transaction(Transaction::new(
        "alice".to_string(),
        TransactionData::CreateUserAccount("carol".to_string()),
        0,
    ));
    assert_eq!(bc.append_block(block), Err(ChainError::BrokenLink));
    assert_eq!(bc.len(), 1);
}

#[test]
fn admission_rejects_empty_block() {
    let mut bc = Blockchain::new();
    let mut block = Block::new(None);
    block.update_hash();
    assert_eq!(bc.append_block(block), Err(ChainError::EmptyBlock));
}

#[test]
fn unknown_sender_outside_genesis() {
    let mut bc = Blockchain::new();
    bc.append_block(funded_genesis(&["alice"])).expect("genesis should be accepted");
    let mut block = Block::new(bc.get_last_block_hash());
    block.add_transaction(Transaction::new(
        "ghost".to_string(),
        TransactionData::CreateUserAccount("carol".to_string()),
        0,
    ));
    assert_eq!(
        bc.append_block(block),
        Err(ChainError::TransactionFailed { index: 1, cause: ExecError::UnknownSender })
    );
}

#[test]
fn transfer_sender_must_exist_even_in_genesis() {
    let mut world = AccountMap::new();
    world.create_account("bob".to_string(), AccountType::User).unwrap();
    let tx = Transaction::new(
        "ghost".to_string(),
        TransactionData::TransferTokens { to: "bob".to_string(), amount: 1 },
        0,
    );
    assert_eq!(tx.execute(&mut world, &true), Err(ExecError::UnknownSender));
}

#[test]
fn unknown_receiver_on_transfer() {
    let mut world = AccountMap::new();
    world.create_account("alice".to_string(), AccountType::User).unwrap();
    let tx = Transaction::new(
        "alice".to_string(),
        TransactionData::TransferTokens { to: "ghost".to_string(), amount: 1 },
        0,
    );
    assert_eq!(tx.execute(&mut world, &false), Err(ExecError::UnknownReceiver));
}

#[test]
fn unknown_receiver_on_minting() {
    let mut world = AccountMap::new();
    world.create_account("alice".to_string(), AccountType::User).unwrap();
    let tx = Transaction::new(
        "alice".to_string(),
        TransactionData::CreateTokens { receiver: "ghost".to_string(), amount: 1 },
        0,
    );
    assert_eq!(tx.execute(&mut world, &true), Err(ExecError::UnknownReceiver));
}

#[test]
fn minting_only_in_genesis() {
    let mut bc = Blockchain::new();
    bc.append_block(funded_genesis(&["alice"])).expect("genesis should be accepted");
    let mut block = Block::new(bc.get_last_block_hash());
    block.add_transaction(Transaction::new(
        "alice".to_string(),
        TransactionData::CreateTokens { receiver: "alice".to_string(), amount: 1 },
        0,
    ));
    assert_eq!(
        bc.append_block(block),
        Err(ChainError::TransactionFailed { index: 1, cause: ExecError::NotInitialPhase })
    );
    assert_eq!(balance(&bc, "alice"), 100_000_000);
}

#[test]
fn minting_overflow_is_a_fault() {
    let mut world = AccountMap::new();
    world.create_account("alice".to_string(), AccountType::User).unwrap();
    assert!(world.set_account_tokens(&"alice".to_string(), u128::MAX));
    let tx = Transaction::new(
        "alice".to_string(),
        TransactionData::CreateTokens { receiver: "alice".to_string(), amount: 1 },
        0,
    );
    assert_eq!(tx.execute(&mut world, &true), Err(ExecError::ArithmeticFault));
    assert_eq!(world.get_account_by_id(&"alice".to_string()).unwrap().tokens(), u128::MAX);
}

#[test]
fn duplicate_account_rejected() {
    let mut world = AccountMap::new();
    world.create_account("alice".to_string(), AccountType::User).unwrap();
    let tx = Transaction::new(
        "alice".to_string(),
        TransactionData::CreateUserAccount("alice".to_string()),
        0,
    );
    assert_eq!(tx.execute(&mut world, &false), Err(ExecError::AccountExists));
}

#[test]
fn store_change_is_unsupported() {
    let mut world = AccountMap::new();
    world.create_account("alice".to_string(), AccountType::User).unwrap();
    let tx = Transaction::new(
        "alice".to_string(),
        TransactionData::ChangeStoreValue { key: "k".to_string(), value: "v".to_string() },
        0,
    );
    assert_eq!(tx.execute(&mut world, &false), Err(ExecError::UnsupportedTransactionType));
}

#[test]
fn self_transfer_follows_write_order() {
    // Both balances are computed from the pre-state and the receiver
    // write lands last, so a self-transfer of an affordable amount ends
    // at balance plus amount.
    let mut world = AccountMap::new();
    world.create_account("alice".to_string(), AccountType::User).unwrap();
    assert!(world.set_account_tokens(&"alice".to_string(), 10));
    let tx = Transaction::new(
        "alice".to_string(),
        TransactionData::TransferTokens { to: "alice".to_string(), amount: 3 },
        0,
    );
    assert!(tx.execute(&mut world, &false).is_ok());
    assert_eq!(world.get_account_by_id(&"alice".to_string()).unwrap().tokens(), 13);
}

#[test]
fn unsigned_transactions_pass_validity() {
    let tx = Transaction::new(
        "alice".to_string(),
        TransactionData::CreateUserAccount("alice".to_string()),
        0,
    );
    assert!(!tx.is_signed());
    assert!(!tx.check_signature());
    let bc = two_block_chain();
    assert!(bc.check_validity().is_ok());
}

#[test]
fn user_ids_enumerate_world() {
    let bc = two_block_chain();
    let mut ids = bc.get_user_ids();
    ids.sort();
    assert_eq!(ids, vec!["alice".to_string(), "bob".to_string()]);
}
