use core::str::FromStr;
use minichain::block::Block;
use minichain::transaction::{Transaction, ValidationError};
use sha3::Digest;

fn reward_tx(to: &str, amount: u64) -> Transaction {
    Transaction {
        from_address: None,
        to_address: to.to_string(),
        amount,
        signature: None,
        hash: None,
    }
}

fn signed_tx(amount: u64) -> Transaction {
    let sk_hex = "0000000000000000000000000000000000000000000000000000000000000001";
    let sk = secp256k1::SecretKey::from_str(sk_hex).unwrap();
    let pk = secp256k1::PublicKey::from_secret_key(&sk);
    let mut tx = Transaction {
        from_address: Some(pk.to_string()),
        to_address: "recipient".to_string(),
        amount,
        signature: None,
        hash: None,
    };
    tx.sign(sk_hex).unwrap();
    tx
}

#[test]
fn block_hash_matches_digest_of_canonical_input() {
    // Transaction count, then length-prefixed timestamp and previous hash,
    // then the nonce.
    let hash = Block::calculate_hash("2024-01-01T00:00:00+00:00", &[], "prevhash", 7);
    let input = b"0:25:2024-01-01T00:00:00+00:00:8:prevhash:7";
    assert_eq!(hash, hex::encode(sha3::Sha3_256::digest(input.as_slice())));
}

#[test]
fn block_hash_covers_transaction_fields() {
    let tx = reward_tx("miner", 99);
    let hash = Block::calculate_hash("ts", std::slice::from_ref(&tx), "prev", 0);
    // One record: sender, recipient, amount, signature, hash; then the
    // block's own fields.
    let input = b"1:N:5:miner:99:N:N;2:ts:4:prev:0";
    assert_eq!(hash, hex::encode(sha3::Sha3_256::digest(input.as_slice())));
}

#[test]
fn record_content_cannot_shift_record_boundaries() {
    // Without count and length prefixes the one-transaction list would
    // render to the same bytes as the two-transaction list.
    let crafted = reward_tx("a:1:N:N;N:b", 1);
    let h1 = Block::calculate_hash("ts", std::slice::from_ref(&crafted), "prev", 0);
    let pair = [reward_tx("a", 1), reward_tx("b", 1)];
    let h2 = Block::calculate_hash("ts", &pair, "prev", 0);
    assert_ne!(h1, h2);
}

#[test]
fn block_hash_changes_with_nonce() {
    let h0 = Block::calculate_hash("ts", &[], "prev", 0);
    let h1 = Block::calculate_hash("ts", &[], "prev", 1);
    assert_ne!(h0, h1);
}

#[test]
fn new_block_hash_is_recomputable() {
    let block = Block::new(vec![reward_tx("miner", 5)], "prev".to_string());
    assert_eq!(block.nonce, 0);
    assert_eq!(block.previous_hash, "prev");
    let recomputed = Block::calculate_hash(
        &block.timestamp,
        &block.transactions,
        &block.previous_hash,
        block.nonce,
    );
    assert_eq!(block.hash, recomputed);
}

#[test]
fn mining_satisfies_difficulty() {
    for difficulty in 0..4usize {
        let mut block = Block::new(vec![reward_tx("miner", 1)], "prev".to_string());
        let found = block.mine_block(difficulty);
        assert!(found);
        assert!(block.hash.chars().take(difficulty).all(|c| c == '0'));
        let recomputed = Block::calculate_hash(
            &block.timestamp,
            &block.transactions,
            &block.previous_hash,
            block.nonce,
        );
        assert_eq!(block.hash, recomputed);
    }
}

#[test]
fn mining_at_zero_difficulty_keeps_the_nonce() {
    let mut block = Block::new(vec![], "prev".to_string());
    assert!(block.mine_block(0));
    assert_eq!(block.nonce, 0);
}

#[test]
fn empty_block_has_valid_transactions() {
    let block = Block::new(vec![], "prev".to_string());
    assert_eq!(block.has_valid_transactions(), Ok(true));
}

#[test]
fn reward_transactions_keep_the_block_valid() {
    let block = Block::new(vec![reward_tx("a", 1), reward_tx("b", 2)], "prev".to_string());
    assert_eq!(block.has_valid_transactions(), Ok(true));
}

#[test]
fn tampered_transaction_invalidates_the_block() {
    let mut tx = signed_tx(10);
    tx.amount = 11;
    let block = Block::new(vec![tx], "prev".to_string());
    assert_eq!(block.has_valid_transactions(), Ok(false));
}

#[test]
fn erroring_transaction_is_reported_not_fatal() {
    let mut tx = signed_tx(10);
    tx.signature = None;
    let block = Block::new(vec![tx], "prev".to_string());
    assert_eq!(
        block.has_valid_transactions(),
        Err(ValidationError::MissingSignature)
    );
}

#[test]
fn explicit_invalidity_outweighs_an_earlier_error() {
    let mut erroring = signed_tx(10);
    erroring.signature = None;
    let mut invalid = signed_tx(10);
    invalid.amount = 11;
    let block = Block::new(vec![erroring, invalid], "prev".to_string());
    assert_eq!(block.has_valid_transactions(), Ok(false));
}
