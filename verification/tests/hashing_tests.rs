use rchain::byte_vector_to_string;
use rchain::Block;
use rchain::Transaction;
use rchain::TransactionData;

#[test]
fn hex_rendering_exact() {
    let bytes: Vec<u8> = vec![0x00, 0xab, 0xff];
    assert_eq!(byte_vector_to_string(&bytes), "00abff");
}

#[test]
fn hex_rendering_empty() {
    let bytes: Vec<u8> = Vec::new();
    assert_eq!(byte_vector_to_string(&bytes), "");
}

#[test]
fn hex_rendering_all_digits() {
    let bytes: Vec<u8> = vec![0x01, 0x23, 0x45, 0x67, 0x89, 0xab, 0xcd, 0xef];
    assert_eq!(byte_vector_to_string(&bytes), "0123456789abcdef");
}

#[test]
fn transaction_hash_deterministic() {
    let tx = Transaction::new(
        "alice".to_string(),
        TransactionData::TransferTokens { to: "bob".to_string(), amount: 7 },
        3,
    );
    assert_eq!(tx.calculate_hash(), tx.calculate_hash());
}

#[test]
fn block_hash_deterministic() {
    let mut block = Block::new(None);
    block.add_transaction(Transaction::new(
        "alice".to_string(),
        TransactionData::CreateUserAccount("alice".to_string()),
        0,
    ));
    assert_eq!(block.calculate_hash(), block.calculate_hash());
    assert!(block.verify_own_hash());
}

#[test]
fn block_digest_has_full_width() {
    // BLAKE2b-512 digests are 64 bytes; the stored rendering is two hex
    // characters per byte.
    let mut block = Block::new(None);
    block.update_hash();
    assert_eq!(block.calculate_hash().len(), 64);
    assert_eq!(block.hash.as_ref().unwrap().len(), 128);
}

#[test]
fn block_digest_depends_on_content() {
    let mut a = Block::new(None);
    let mut b = Block::new(None);
    a.set_nonce(1);
    b.set_nonce(2);
    assert_ne!(&a.hash, &b.hash);
    let mut c = Block::new(None);
    c.set_nonce(1);
    assert_eq!(&a.hash, &c.hash);
}

#[test]
fn update_hash_tracks_content() {
    let mut block = Block::new(None);
    block.update_hash();
    let empty_hash = block.hash.clone();
    block.add_transaction(Transaction::new(
        "alice".to_string(),
        TransactionData::CreateUserAccount("alice".to_string()),
        0,
    ));
    assert_ne!(&block.hash, &empty_hash);
    assert!(block.verify_own_hash());
}
