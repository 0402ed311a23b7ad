use core::str::FromStr;
use minichain::transaction::{SignError, Transaction, ValidationError};
use rand::Rng;
use sha3::Digest;

/// A fixed, well-formed secret key (the scalar 1) and its public key, as hex.
fn fixed_keypair() -> (String, String) {
    let sk_hex = "0000000000000000000000000000000000000000000000000000000000000001".to_string();
    let sk = secp256k1::SecretKey::from_str(&sk_hex).unwrap();
    let pk = secp256k1::PublicKey::from_secret_key(&sk);
    (sk_hex, pk.to_string())
}

/// A freshly generated secret key and its public key, as hex.
fn random_keypair() -> (String, String) {
    let mut bytes = [0u8; 32];
    loop {
        rand::rng().fill_bytes(&mut bytes);
        let sk_hex = hex::encode(bytes);
        if let Ok(sk) = secp256k1::SecretKey::from_str(&sk_hex) {
            let pk = secp256k1::PublicKey::from_secret_key(&sk);
            return (sk_hex, pk.to_string());
        }
    }
}

fn unsigned(from: Option<String>, to: &str, amount: u64) -> Transaction {
    Transaction {
        from_address: from,
        to_address: to.to_string(),
        amount,
        signature: None,
        hash: None,
    }
}

#[test]
fn transaction_hash_is_deterministic() {
    let from = Some("sender-key".to_string());
    let h1 = Transaction::calculate_hash(&from, "recipient-key", 42);
    let h2 = Transaction::calculate_hash(&from, "recipient-key", 42);
    assert_eq!(h1, h2);
    let h3 = Transaction::calculate_hash(&from, "recipient-key", 43);
    assert_ne!(h1, h3);
}

#[test]
fn transaction_hash_matches_digest_of_canonical_input() {
    // Sender tag and length-prefixed strings: "S" "5:alice" ":" "3:bob" ":" "1234".
    let from = Some("alice".to_string());
    let expected = hex::encode(sha3::Sha3_256::digest(b"S5:alice:3:bob:1234".as_slice()));
    assert_eq!(Transaction::calculate_hash(&from, "bob", 1234), expected);
}

#[test]
fn transaction_hash_without_sender_uses_none_tag() {
    let expected = hex::encode(sha3::Sha3_256::digest(b"N:5:carol:0".as_slice()));
    assert_eq!(Transaction::calculate_hash(&None, "carol", 0), expected);
}

#[test]
fn separator_content_cannot_shift_field_boundaries() {
    // Without length prefixes these two would render identically.
    let h1 = Transaction::calculate_hash(&Some("x".to_string()), "y:1", 2);
    let h2 = Transaction::calculate_hash(&Some("x:y".to_string()), "1", 2);
    assert_ne!(h1, h2);
    let h3 = Transaction::calculate_hash(&None, "a", 1);
    let h4 = Transaction::calculate_hash(&Some("".to_string()), "a", 1);
    assert_ne!(h3, h4);
}

#[test]
fn sign_and_verify_round_trip() {
    let (sk, pk) = random_keypair();
    let mut tx = unsigned(Some(pk), "recipient", 10);
    assert_eq!(tx.sign(&sk), Ok(()));
    assert!(tx.hash.is_some());
    assert_eq!(tx.hash.as_ref().unwrap().len(), 64);
    assert!(tx.signature.is_some());
    assert_eq!(tx.is_valid(), Ok(true));
}

#[test]
fn tampered_amount_fails_validation() {
    let (sk, pk) = fixed_keypair();
    let mut tx = unsigned(Some(pk), "recipient", 10);
    assert_eq!(tx.sign(&sk), Ok(()));
    tx.amount = 11;
    assert_eq!(tx.is_valid(), Ok(false));
}

#[test]
fn tampered_recipient_fails_validation() {
    let (sk, pk) = fixed_keypair();
    let mut tx = unsigned(Some(pk), "recipient", 10);
    assert_eq!(tx.sign(&sk), Ok(()));
    tx.to_address = "other".to_string();
    assert_eq!(tx.is_valid(), Ok(false));
}

#[test]
fn tampered_hash_fails_validation() {
    let (sk, pk) = fixed_keypair();
    let mut tx = unsigned(Some(pk), "recipient", 10);
    assert_eq!(tx.sign(&sk), Ok(()));
    tx.hash = Some("00".repeat(32));
    assert_eq!(tx.is_valid(), Ok(false));
}

#[test]
fn reward_transaction_is_always_valid() {
    let tx = unsigned(None, "miner", 100);
    assert_eq!(tx.is_valid(), Ok(true));
    let decorated = Transaction {
        from_address: None,
        to_address: "miner".to_string(),
        amount: 100,
        signature: Some("not even hex".to_string()),
        hash: Some("zz".to_string()),
    };
    assert_eq!(decorated.is_valid(), Ok(true));
}

#[test]
fn sign_without_sender_is_refused() {
    let (sk, _) = fixed_keypair();
    let mut tx = unsigned(None, "recipient", 10);
    assert_eq!(tx.sign(&sk), Err(SignError::MissingSenderAddress));
    assert!(tx.hash.is_none());
    assert!(tx.signature.is_none());
}

#[test]
fn sign_with_malformed_sender_is_refused() {
    let (sk, _) = fixed_keypair();
    let mut tx = unsigned(Some("not a key".to_string()), "recipient", 10);
    assert_eq!(tx.sign(&sk), Err(SignError::InvalidPublicKey));
    assert!(tx.hash.is_none());
}

#[test]
fn sign_with_malformed_key_is_refused() {
    let (_, pk) = fixed_keypair();
    let mut tx = unsigned(Some(pk), "recipient", 10);
    assert_eq!(tx.sign("zz"), Err(SignError::InvalidPrivateKey));
    assert!(tx.hash.is_none());
}

#[test]
fn sign_with_mismatched_key_is_refused() {
    let (_, pk) = fixed_keypair();
    let other_sk = "0000000000000000000000000000000000000000000000000000000000000002";
    let mut tx = unsigned(Some(pk), "recipient", 10);
    assert_eq!(tx.sign(other_sk), Err(SignError::KeyMismatch));
    assert!(tx.hash.is_none());
    assert!(tx.signature.is_none());
}

#[test]
fn validate_missing_signature_errors() {
    let (_, pk) = fixed_keypair();
    let tx = unsigned(Some(pk), "recipient", 10);
    assert_eq!(tx.is_valid(), Err(ValidationError::MissingSignature));
}

#[test]
fn validate_empty_signature_errors() {
    let (_, pk) = fixed_keypair();
    let mut tx = unsigned(Some(pk), "recipient", 10);
    tx.signature = Some(String::new());
    assert_eq!(tx.is_valid(), Err(ValidationError::MissingSignature));
}

#[test]
fn validate_malformed_sender_errors() {
    let mut tx = unsigned(Some("not a key".to_string()), "recipient", 10);
    tx.signature = Some("aa".to_string());
    assert_eq!(tx.is_valid(), Err(ValidationError::InvalidPublicKey));
}

#[test]
fn validate_missing_hash_errors() {
    let (_, pk) = fixed_keypair();
    let mut tx = unsigned(Some(pk), "recipient", 10);
    tx.signature = Some("aa".to_string());
    assert_eq!(tx.is_valid(), Err(ValidationError::MissingHash));
}

#[test]
fn validate_malformed_hash_errors() {
    let (_, pk) = fixed_keypair();
    let mut tx = unsigned(Some(pk), "recipient", 10);
    tx.signature = Some("aa".to_string());
    tx.hash = Some("zz".to_string());
    assert_eq!(tx.is_valid(), Err(ValidationError::InvalidHashEncoding));
}

#[test]
fn validate_short_hash_errors() {
    let (_, pk) = fixed_keypair();
    let mut tx = unsigned(Some(pk), "recipient", 10);
    tx.signature = Some("aa".to_string());
    tx.hash = Some("aabb".to_string());
    assert_eq!(tx.is_valid(), Err(ValidationError::InvalidMessage));
}

#[test]
fn validate_malformed_signature_hex_errors() {
    let (_, pk) = fixed_keypair();
    let mut tx = unsigned(Some(pk), "recipient", 10);
    tx.signature = Some("not hex".to_string());
    tx.hash = Some("00".repeat(32));
    assert_eq!(tx.is_valid(), Err(ValidationError::InvalidSignatureEncoding));
}

#[test]
fn validate_malformed_der_errors() {
    let (_, pk) = fixed_keypair();
    let mut tx = unsigned(Some(pk), "recipient", 10);
    tx.signature = Some("aabb".to_string());
    tx.hash = Some("00".repeat(32));
    assert_eq!(tx.is_valid(), Err(ValidationError::InvalidSignature));
}

#[test]
fn clone_preserves_fields() {
    let (sk, pk) = fixed_keypair();
    let mut tx = unsigned(Some(pk.clone()), "recipient", 10);
    assert_eq!(tx.sign(&sk), Ok(()));
    let copy = tx.clone();
    assert_eq!(copy.from_address, Some(pk));
    assert_eq!(copy.to_address, "recipient");
    assert_eq!(copy.amount, 10);
    assert_eq!(copy.signature, tx.signature);
    assert_eq!(copy.hash, tx.hash);
    assert_eq!(copy.is_valid(), Ok(true));
}
