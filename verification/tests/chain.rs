use core::str::FromStr;
use minichain::blockchain::Blockchain;
use minichain::transaction::{Transaction, TransactionError};

fn keypair() -> (String, String) {
    let sk_hex = "0000000000000000000000000000000000000000000000000000000000000001".to_string();
    let sk = secp256k1::SecretKey::from_str(&sk_hex).unwrap();
    let pk = secp256k1::PublicKey::from_secret_key(&sk);
    (sk_hex, pk.to_string())
}

fn unsigned(from: Option<String>, to: &str, amount: u64) -> Transaction {
    Transaction {
        from_address: from,
        to_address: to.to_string(),
        amount,
        signature: None,
        hash: None,
    }
}

fn signed(sk: &str, pk: &str, to: &str, amount: u64) -> Transaction {
    let mut tx = unsigned(Some(pk.to_string()), to, amount);
    tx.sign(sk).unwrap();
    tx
}

/// A chain with one signed transfer mined into its second block.
fn mined_chain(difficulty: usize) -> (Blockchain, String) {
    let (sk, pk) = keypair();
    let mut chain = Blockchain::new(difficulty, 100);
    chain
        .add_transaction(signed(&sk, &pk, "recipient", 10))
        .unwrap();
    assert!(chain.mine_pending_transactions("addrX".to_string()));
    (chain, pk)
}

#[test]
fn fresh_chain_is_valid() {
    let chain = Blockchain::new(2, 100);
    assert_eq!(chain.chain.len(), 1);
    assert_eq!(chain.chain[0].previous_hash, "0");
    assert!(chain.chain[0].transactions.is_empty());
    assert!(chain.pending_transactions.is_empty());
    assert!(chain.is_valid());
}

#[test]
fn chain_is_valid_after_mining() {
    let (chain, pk) = mined_chain(2);
    assert!(chain.is_valid());
    assert_eq!(chain.chain.len(), 2);
    assert!(chain.pending_transactions.is_empty());
    assert!(chain.chain[1].hash.starts_with("00"));
    assert_eq!(chain.chain[1].previous_hash, chain.chain[0].hash);
    // The reward transaction comes last, after the submitted transfer.
    assert_eq!(chain.chain[1].transactions.len(), 2);
    let reward = &chain.chain[1].transactions[1];
    assert_eq!(reward.from_address, None);
    assert_eq!(reward.to_address, "addrX");
    assert_eq!(reward.amount, 100);
    assert_eq!(chain.get_balance_of_address("addrX"), 100);
    assert_eq!(chain.get_balance_of_address("recipient"), 10);
    assert_eq!(chain.get_balance_of_address(&pk), -10);
    assert_eq!(chain.get_balance_of_address("stranger"), 0);
}

#[test]
fn miner_collects_its_own_transfers() {
    let (sk, pk) = keypair();
    let mut chain = Blockchain::new(1, 100);
    chain.add_transaction(signed(&sk, &pk, "addrX", 7)).unwrap();
    assert!(chain.mine_pending_transactions("addrX".to_string()));
    // addrX receives the transfer and the reward.
    assert_eq!(chain.get_balance_of_address("addrX"), 107);
    assert_eq!(chain.get_balance_of_address(&pk), -7);
}

#[test]
fn mining_an_empty_pool_still_pays_the_reward() {
    let mut chain = Blockchain::new(1, 100);
    assert!(chain.mine_pending_transactions("miner".to_string()));
    assert_eq!(chain.chain.len(), 2);
    assert_eq!(chain.chain[1].transactions.len(), 1);
    assert_eq!(chain.get_balance_of_address("miner"), 100);
    assert!(chain.is_valid());
}

#[test]
fn reward_is_only_credited_once_mined() {
    let mut chain = Blockchain::new(1, 100);
    assert!(chain.mine_pending_transactions("miner".to_string()));
    // The second reward sits in the pending pool, not yet in any block.
    assert_eq!(chain.get_balance_of_address("miner"), 100);
    assert!(chain.mine_pending_transactions("miner".to_string()));
    assert_eq!(chain.get_balance_of_address("miner"), 200);
}

#[test]
fn tampered_transaction_amount_breaks_chain_validity() {
    let (mut chain, _) = mined_chain(2);
    chain.chain[1].transactions[0].amount = 9999;
    assert!(!chain.is_valid());
}

#[test]
fn tampered_nonce_breaks_chain_validity() {
    let (mut chain, _) = mined_chain(2);
    chain.chain[1].nonce += 1;
    assert!(!chain.is_valid());
}

#[test]
fn tampered_timestamp_breaks_chain_validity() {
    let (mut chain, _) = mined_chain(2);
    chain.chain[1].timestamp = "1999-01-01T00:00:00+00:00".to_string();
    assert!(!chain.is_valid());
}

#[test]
fn tampered_previous_hash_breaks_chain_validity() {
    let (mut chain, _) = mined_chain(2);
    chain.chain[1].previous_hash = "00".repeat(32);
    assert!(!chain.is_valid());
}

#[test]
fn tampered_stored_hash_breaks_chain_validity() {
    let (mut chain, _) = mined_chain(2);
    chain.chain[1].hash = "00".repeat(32);
    assert!(!chain.is_valid());
}

#[test]
fn add_transaction_rejects_a_missing_sender() {
    let mut chain = Blockchain::new(2, 100);
    let result = chain.add_transaction(unsigned(None, "recipient", 10));
    assert!(matches!(result, Err(TransactionError::InvalidTransaction)));
    assert!(chain.pending_transactions.is_empty());
}

#[test]
fn add_transaction_rejects_an_empty_recipient() {
    let (sk, pk) = keypair();
    let mut tx = unsigned(Some(pk), "x", 10);
    tx.sign(&sk).unwrap();
    tx.to_address = String::new();
    let mut chain = Blockchain::new(2, 100);
    let result = chain.add_transaction(tx);
    assert!(matches!(result, Err(TransactionError::InvalidTransaction)));
    assert!(chain.pending_transactions.is_empty());
}

#[test]
fn add_transaction_rejects_a_failing_signature() {
    let (sk, pk) = keypair();
    let mut tx = signed(&sk, &pk, "recipient", 10);
    tx.amount = 11;
    let mut chain = Blockchain::new(2, 100);
    let result = chain.add_transaction(tx);
    assert!(matches!(result, Err(TransactionError::InvalidTransaction)));
    assert!(chain.pending_transactions.is_empty());
}

#[test]
fn add_transaction_accepts_an_erroring_transaction() {
    // A transaction whose validation errors (no signature at all) is
    // accepted into the pool; the chain's own validation later collapses
    // the error to invalid.
    let (_, pk) = keypair();
    let mut chain = Blockchain::new(0, 100);
    let result = chain.add_transaction(unsigned(Some(pk), "recipient", 10));
    assert!(result.is_ok());
    assert_eq!(chain.pending_transactions.len(), 1);
    assert!(chain.mine_pending_transactions("miner".to_string()));
    assert!(!chain.is_valid());
}

#[test]
fn balances_replay_the_whole_history() {
    let (sk, pk) = keypair();
    let mut chain = Blockchain::new(1, 50);
    chain.add_transaction(signed(&sk, &pk, "alice", 30)).unwrap();
    assert!(chain.mine_pending_transactions("carol".to_string()));
    chain.add_transaction(signed(&sk, &pk, "bob", 12)).unwrap();
    assert!(chain.mine_pending_transactions("carol".to_string()));
    assert_eq!(chain.get_balance_of_address("alice"), 30);
    assert_eq!(chain.get_balance_of_address("bob"), 12);
    assert_eq!(chain.get_balance_of_address("carol"), 100);
    assert_eq!(chain.get_balance_of_address(&pk), -42);
    assert!(chain.is_valid());
}
