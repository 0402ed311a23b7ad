//! Transactions: signable, verifiable units of value transfer.
//!
//! A transaction carries an optional sender (absent for system-issued mining
//! rewards), a recipient, a non-negative amount, and — once signed — a
//! content hash over its fields and a hex-encoded DER signature over that
//! hash. Validation rebinds the signature to the current field values by
//! recomputing the content hash, so a field mutated after signing makes the
//! transaction invalid.

use crate::crypto::{
    bytes_eq, derive_public_key, ecdsa_sig_der, ecdsa_verify_ok, parse_public_key, pk_canon,
    sig_der_parses, sign_digest, sk_canon_pk, verify_signature,
};
use crate::digest::{
    dec_digits, hex_bytes, hex_decodable, hex_decode, hex_encode, hex_of,
    lemma_dec_digits_injective, lemma_digits_term_prefix, lemma_hex_roundtrip, push_bytes,
    push_u64_decimal, sha3_256, sha3_of,
};
use vstd::prelude::*;
use vstd::string::StringSliceAdditionalSpecFns;
use vstd::utf8::encode_utf8;

verus! {

/// Separates fields in the canonical rendering (a colon).
pub const FIELD_SEP: u8 = 58;

/// Ends a transaction record in the canonical rendering (a semicolon).
pub const RECORD_END: u8 = 59;

/// Tags an absent optional field in the canonical rendering.
pub const TAG_NONE: u8 = 78;

/// Tags a present optional field in the canonical rendering.
pub const TAG_SOME: u8 = 83;

/// A value transfer between two addresses, or a sender-less mining reward.
#[derive(Debug)]
pub struct Transaction {
    /// The sender address; absent for mining rewards.
    pub from_address: Option<String>,
    /// The recipient address.
    pub to_address: String,
    /// The amount transferred.
    pub amount: u64,
    /// Hex-encoded DER signature over the content hash; set by signing.
    pub signature: Option<String>,
    /// Hex content hash over sender, recipient and amount; set by signing.
    pub hash: Option<String>,
}

/// The error a chain reports when it refuses a submitted transaction.
#[derive(Debug, Clone, Copy, PartialEq, Eq, Structural)]
pub enum TransactionError {
    InvalidTransaction,
}

/// The distinct ways signing can fail. Signing either fully succeeds or
/// leaves the transaction in its pre-call state.
#[derive(Debug, Clone, Copy, PartialEq, Eq, Structural)]
pub enum SignError {
    /// The transaction has no sender address to sign for.
    MissingSenderAddress,
    /// The sender address is not a valid public key encoding.
    InvalidPublicKey,
    /// The signing key is not a valid private key encoding.
    InvalidPrivateKey,
    /// The signing key does not correspond to the sender address.
    KeyMismatch,
}

/// The distinct ways validation can fail with an error, as opposed to
/// returning a normal `false` verdict.
#[derive(Debug, Clone, Copy, PartialEq, Eq, Structural)]
pub enum ValidationError {
    /// No signature, or an empty one, on a transaction with a sender.
    MissingSignature,
    /// The sender address is not a valid public key encoding.
    InvalidPublicKey,
    /// The transaction carries no content hash.
    MissingHash,
    /// The stored content hash is not valid hex.
    InvalidHashEncoding,
    /// The decoded content hash is not a 32-byte message.
    InvalidMessage,
    /// The stored signature is not valid hex.
    InvalidSignatureEncoding,
    /// The decoded signature bytes are not a DER signature.
    InvalidSignature,
}

/// The view of an optional string as an optional character sequence.
pub open spec fn opt_view(o: Option<String>) -> Option<Seq<char>> {
    match o {
        Option::None => Option::None,
        Option::Some(s) => Option::Some(s@),
    }
}

/// Canonical rendering of a string field: the decimal byte length, a
/// separator, then the UTF-8 bytes. The length prefix makes the rendering
/// self-delimiting, so no string content can shift a field boundary.
pub open spec fn len_prefixed(s: Seq<char>) -> Seq<u8> {
    dec_digits(encode_utf8(s).len()) + seq![FIELD_SEP] + encode_utf8(s)
}

/// Canonical rendering of an optional string field: a tag byte, then the
/// length-prefixed string if present.
pub open spec fn opt_str_bytes(o: Option<Seq<char>>) -> Seq<u8> {
    match o {
        Option::None => seq![TAG_NONE],
        Option::Some(s) => seq![TAG_SOME] + len_prefixed(s),
    }
}

/// The byte sequence a transaction's content hash is computed over:
/// sender, recipient and amount, in that order.
pub open spec fn tx_sig_input(from: Option<Seq<char>>, to: Seq<char>, amount: u64) -> Seq<u8> {
    opt_str_bytes(from) + seq![FIELD_SEP] + len_prefixed(to) + seq![FIELD_SEP] + dec_digits(
        amount as nat,
    )
}

/// The hex content hash of a transaction: SHA3-256 over the canonical
/// rendering of sender, recipient and amount.
pub open spec fn tx_sig_hash(from: Option<Seq<char>>, to: Seq<char>, amount: u64) -> Seq<char> {
    hex_of(sha3_of(tx_sig_input(from, to, amount)))
}

/// The full canonical record of a transaction, all five fields, as it enters
/// a block's hash input.
pub open spec fn tx_record(t: Transaction) -> Seq<u8> {
    opt_str_bytes(opt_view(t.from_address)) + seq![FIELD_SEP] + len_prefixed(t.to_address@)
        + seq![FIELD_SEP] + dec_digits(t.amount as nat) + seq![FIELD_SEP] + opt_str_bytes(
        opt_view(t.signature),
    ) + seq![FIELD_SEP] + opt_str_bytes(opt_view(t.hash)) + seq![RECORD_END]
}

/// The outcome signing owes for a given transaction and key: success exactly
/// when the sender parses as a public key, the key parses as a private key,
/// and the two correspond.
pub open spec fn sign_outcome(t: Transaction, key: Seq<char>) -> Result<(), SignError> {
    match t.from_address {
        Option::None => Result::Err(SignError::MissingSenderAddress),
        Option::Some(from) => if pk_canon(from@) is None {
            Result::Err(SignError::InvalidPublicKey)
        } else if sk_canon_pk(key) is None {
            Result::Err(SignError::InvalidPrivateKey)
        } else if sk_canon_pk(key) != pk_canon(from@) {
            Result::Err(SignError::KeyMismatch)
        } else {
            Result::Ok(())
        },
    }
}

/// The verdict validation owes for a given transaction: `Ok(true)` for
/// sender-less reward transactions; otherwise `Ok` carries whether the stored
/// hash matches the recomputed content hash and the signature verifies, and
/// each malformed part surfaces as its own error.
pub open spec fn tx_validation(t: Transaction) -> Result<bool, ValidationError> {
    match t.from_address {
        Option::None => Result::Ok(true),
        Option::Some(from) => match t.signature {
            Option::None => Result::Err(ValidationError::MissingSignature),
            Option::Some(sig) => if sig@.len() == 0 {
                Result::Err(ValidationError::MissingSignature)
            } else if pk_canon(from@) is None {
                Result::Err(ValidationError::InvalidPublicKey)
            } else {
                match t.hash {
                    Option::None => Result::Err(ValidationError::MissingHash),
                    Option::Some(h) => if !hex_decodable(h@) {
                        Result::Err(ValidationError::InvalidHashEncoding)
                    } else if hex_bytes(h@).len() != 32 {
                        Result::Err(ValidationError::InvalidMessage)
                    } else if !hex_decodable(sig@) {
                        Result::Err(ValidationError::InvalidSignatureEncoding)
                    } else if !sig_der_parses(hex_bytes(sig@)) {
                        Result::Err(ValidationError::InvalidSignature)
                    } else {
                        Result::Ok(
                            h@ == tx_sig_hash(Option::Some(from@), t.to_address@, t.amount)
                                && ecdsa_verify_ok(from@, hex_bytes(h@), hex_bytes(sig@)),
                        )
                    },
                }
            },
        },
    }
}

/// Whether two transactions agree on the views of all five fields.
pub open spec fn tx_view_eq(a: Transaction, b: Transaction) -> bool {
    &&& opt_view(a.from_address) == opt_view(b.from_address)
    &&& a.to_address@ == b.to_address@
    &&& a.amount == b.amount
    &&& opt_view(a.signature) == opt_view(b.signature)
    &&& opt_view(a.hash) == opt_view(b.hash)
}

/// A length-prefixed string followed by anything parses unambiguously: the
/// string and what follows it are both determined.
pub proof fn lemma_len_prefixed_prefix(s1: Seq<char>, s2: Seq<char>, r1: Seq<u8>, r2: Seq<u8>)
    requires
        len_prefixed(s1) + r1 == len_prefixed(s2) + r2,
    ensures
        s1 == s2,
        r1 == r2,
{
    let b1 = encode_utf8(s1);
    let b2 = encode_utf8(s2);
    assert(len_prefixed(s1) + r1 =~= dec_digits(b1.len()) + seq![FIELD_SEP] + (b1 + r1));
    assert(len_prefixed(s2) + r2 =~= dec_digits(b2.len()) + seq![FIELD_SEP] + (b2 + r2));
    lemma_digits_term_prefix(b1.len(), b2.len(), FIELD_SEP, b1 + r1, b2 + r2);
    assert forall|i: int| 0 <= i < b1.len() implies b1[i] == b2[i] by {
        assert((b1 + r1)[i] == b1[i]);
        assert((b2 + r2)[i] == b2[i]);
    }
    assert(b1 =~= b2);
    vstd::utf8::encode_utf8_decode_utf8(s1);
    vstd::utf8::encode_utf8_decode_utf8(s2);
    assert forall|i: int| 0 <= i < r1.len() implies r1[i] == r2[i] by {
        assert((b1 + r1)[b1.len() + i] == r1[i]);
        assert((b2 + r2)[b2.len() + i] == r2[i]);
    }
    assert(r1 =~= r2);
}

/// An optional-field rendering followed by a terminator byte parses
/// unambiguously: the tag byte and the length prefix leave no ambiguity.
pub proof fn lemma_opt_prefix(
    o1: Option<Seq<char>>,
    o2: Option<Seq<char>>,
    t: u8,
    r1: Seq<u8>,
    r2: Seq<u8>,
)
    requires
        opt_str_bytes(o1) + seq![t] + r1 == opt_str_bytes(o2) + seq![t] + r2,
    ensures
        o1 == o2,
        r1 == r2,
{
    let w1 = opt_str_bytes(o1) + seq![t] + r1;
    let w2 = opt_str_bytes(o2) + seq![t] + r2;
    assert(w1[0] == opt_str_bytes(o1)[0]);
    assert(w2[0] == opt_str_bytes(o2)[0]);
    match (o1, o2) {
        (Option::None, Option::None) => {
            assert(w1 =~= seq![TAG_NONE] + seq![t] + r1);
            assert(w2 =~= seq![TAG_NONE] + seq![t] + r2);
            assert forall|i: int| 0 <= i < r1.len() implies r1[i] == r2[i] by {
                assert((seq![TAG_NONE] + seq![t] + r1)[2 + i] == r1[i]);
                assert((seq![TAG_NONE] + seq![t] + r2)[2 + i] == r2[i]);
            }
            assert(r1 =~= r2);
        },
        (Option::Some(s1), Option::Some(s2)) => {
            let u1 = len_prefixed(s1) + (seq![t] + r1);
            let u2 = len_prefixed(s2) + (seq![t] + r2);
            assert(w1 =~= seq![TAG_SOME] + u1);
            assert(w2 =~= seq![TAG_SOME] + u2);
            assert forall|i: int| 0 <= i < u1.len() implies u1[i] == u2[i] by {
                assert((seq![TAG_SOME] + u1)[1 + i] == u1[i]);
                assert((seq![TAG_SOME] + u2)[1 + i] == u2[i]);
            }
            assert(u1 =~= u2);
            lemma_len_prefixed_prefix(s1, s2, seq![t] + r1, seq![t] + r2);
            assert forall|i: int| 0 <= i < r1.len() implies r1[i] == r2[i] by {
                assert((seq![t] + r1)[1 + i] == r1[i]);
                assert((seq![t] + r2)[1 + i] == r2[i]);
            }
            assert(r1 =~= r2);
        },
        (Option::None, Option::Some(_)) => {
            assert(opt_str_bytes(o1)[0] == TAG_NONE);
            assert(opt_str_bytes(o2)[0] == TAG_SOME);
            assert(false);
        },
        (Option::Some(_), Option::None) => {
            assert(opt_str_bytes(o1)[0] == TAG_SOME);
            assert(opt_str_bytes(o2)[0] == TAG_NONE);
            assert(false);
        },
    }
}

/// The content-hash input is injective: different sender, recipient or
/// amount render to different byte sequences, so equal content hashes of
/// differing fields would need a digest collision.
pub proof fn lemma_tx_sig_input_injective(
    f1: Option<Seq<char>>,
    t1: Seq<char>,
    a1: u64,
    f2: Option<Seq<char>>,
    t2: Seq<char>,
    a2: u64,
)
    requires
        tx_sig_input(f1, t1, a1) == tx_sig_input(f2, t2, a2),
    ensures
        f1 == f2,
        t1 == t2,
        a1 == a2,
{
    let tail1 = len_prefixed(t1) + (seq![FIELD_SEP] + dec_digits(a1 as nat));
    let tail2 = len_prefixed(t2) + (seq![FIELD_SEP] + dec_digits(a2 as nat));
    assert(tx_sig_input(f1, t1, a1) =~= opt_str_bytes(f1) + seq![FIELD_SEP] + tail1);
    assert(tx_sig_input(f2, t2, a2) =~= opt_str_bytes(f2) + seq![FIELD_SEP] + tail2);
    lemma_opt_prefix(f1, f2, FIELD_SEP, tail1, tail2);
    lemma_len_prefixed_prefix(
        t1,
        t2,
        seq![FIELD_SEP] + dec_digits(a1 as nat),
        seq![FIELD_SEP] + dec_digits(a2 as nat),
    );
    let d1 = dec_digits(a1 as nat);
    let d2 = dec_digits(a2 as nat);
    assert forall|i: int| 0 <= i < d1.len() implies d1[i] == d2[i] by {
        assert((seq![FIELD_SEP] + d1)[1 + i] == d1[i]);
        assert((seq![FIELD_SEP] + d2)[1 + i] == d2[i]);
    }
    assert(d1 =~= d2);
    lemma_dec_digits_injective(a1 as nat, a2 as nat);
}

/// The rendering of a record's last two fields, with `r` appended: helper
/// for the record-parsing proof.
spec fn rec_tail_sig(x: Transaction, r: Seq<u8>) -> Seq<u8> {
    opt_str_bytes(opt_view(x.signature)) + seq![FIELD_SEP] + (opt_str_bytes(opt_view(x.hash))
        + seq![RECORD_END] + r)
}

/// A record with `r` appended regroups into its head fields followed by
/// [`rec_tail_sig`].
proof fn lemma_tx_record_split(x: Transaction, r: Seq<u8>)
    ensures
        tx_record(x) + r == opt_str_bytes(opt_view(x.from_address)) + seq![FIELD_SEP] + (
        len_prefixed(x.to_address@) + (seq![FIELD_SEP] + (dec_digits(x.amount as nat)
            + seq![FIELD_SEP] + rec_tail_sig(x, r)))),
{
    assert(tx_record(x) + r =~= opt_str_bytes(opt_view(x.from_address)) + seq![FIELD_SEP] + (
    len_prefixed(x.to_address@) + (seq![FIELD_SEP] + (dec_digits(x.amount as nat)
        + seq![FIELD_SEP] + rec_tail_sig(x, r)))));
}

/// The last two fields of a record parse unambiguously.
proof fn lemma_rec_tail_sig_prefix(x1: Transaction, x2: Transaction, r1: Seq<u8>, r2: Seq<u8>)
    requires
        rec_tail_sig(x1, r1) == rec_tail_sig(x2, r2),
    ensures
        opt_view(x1.signature) == opt_view(x2.signature),
        opt_view(x1.hash) == opt_view(x2.hash),
        r1 == r2,
{
    let h1 = opt_str_bytes(opt_view(x1.hash)) + seq![RECORD_END] + r1;
    let h2 = opt_str_bytes(opt_view(x2.hash)) + seq![RECORD_END] + r2;
    lemma_opt_prefix(opt_view(x1.signature), opt_view(x2.signature), FIELD_SEP, h1, h2);
    lemma_opt_prefix(opt_view(x1.hash), opt_view(x2.hash), RECORD_END, r1, r2);
}

/// A transaction record followed by anything parses unambiguously: the five
/// field views and what follows the record are all determined.
#[verifier::rlimit(100)]
pub proof fn lemma_tx_record_prefix(x1: Transaction, x2: Transaction, r1: Seq<u8>, r2: Seq<u8>)
    requires
        tx_record(x1) + r1 == tx_record(x2) + r2,
    ensures
        tx_view_eq(x1, x2),
        r1 == r2,
{
    lemma_tx_record_split(x1, r1);
    lemma_tx_record_split(x2, r2);
    let p1 = len_prefixed(x1.to_address@) + (seq![FIELD_SEP] + (dec_digits(x1.amount as nat)
        + seq![FIELD_SEP] + rec_tail_sig(x1, r1)));
    let p2 = len_prefixed(x2.to_address@) + (seq![FIELD_SEP] + (dec_digits(x2.amount as nat)
        + seq![FIELD_SEP] + rec_tail_sig(x2, r2)));
    lemma_opt_prefix(opt_view(x1.from_address), opt_view(x2.from_address), FIELD_SEP, p1, p2);
    let q1 = seq![FIELD_SEP] + (dec_digits(x1.amount as nat) + seq![FIELD_SEP] + rec_tail_sig(
        x1,
        r1,
    ));
    let q2 = seq![FIELD_SEP] + (dec_digits(x2.amount as nat) + seq![FIELD_SEP] + rec_tail_sig(
        x2,
        r2,
    ));
    lemma_len_prefixed_prefix(x1.to_address@, x2.to_address@, q1, q2);
    let n1 = dec_digits(x1.amount as nat) + seq![FIELD_SEP] + rec_tail_sig(x1, r1);
    let n2 = dec_digits(x2.amount as nat) + seq![FIELD_SEP] + rec_tail_sig(x2, r2);
    assert forall|i: int| 0 <= i < n1.len() implies n1[i] == n2[i] by {
        assert((seq![FIELD_SEP] + n1)[1 + i] == n1[i]);
        assert((seq![FIELD_SEP] + n2)[1 + i] == n2[i]);
    }
    assert(n1 =~= n2);
    lemma_digits_term_prefix(
        x1.amount as nat,
        x2.amount as nat,
        FIELD_SEP,
        rec_tail_sig(x1, r1),
        rec_tail_sig(x2, r2),
    );
    lemma_rec_tail_sig_prefix(x1, x2, r1, r2);
}

/// Appends the length-prefixed canonical rendering of a string field.
pub(crate) fn push_len_prefixed(out: &mut Vec<u8>, s: &str)
    ensures
        final(out)@ == old(out)@ + len_prefixed(s@),
{
    let bytes = s.as_bytes();
    push_u64_decimal(out, bytes.len() as u64);
    out.push(FIELD_SEP);
    push_bytes(out, bytes);
    proof {
        assert(final(out)@ =~= old(out)@ + len_prefixed(s@));
    }
}

/// Appends the canonical rendering of an optional string field.
fn push_opt_str(out: &mut Vec<u8>, o: &Option<String>)
    ensures
        final(out)@ == old(out)@ + opt_str_bytes(opt_view(*o)),
{
    match o {
        Option::None => {
            out.push(TAG_NONE);
            proof {
                assert(final(out)@ =~= old(out)@ + opt_str_bytes(opt_view(*o)));
            }
        },
        Option::Some(s) => {
            out.push(TAG_SOME);
            push_len_prefixed(out, s.as_str());
            proof {
                assert(final(out)@ =~= old(out)@ + opt_str_bytes(opt_view(*o)));
            }
        },
    }
}

/// Builds the byte sequence a transaction's content hash is computed over.
fn tx_sig_input_bytes(from: &Option<String>, to: &str, amount: u64) -> (r: Vec<u8>)
    ensures
        r@ == tx_sig_input(opt_view(*from), to@, amount),
{
    let mut out: Vec<u8> = Vec::new();
    push_opt_str(&mut out, from);
    out.push(FIELD_SEP);
    push_len_prefixed(&mut out, to);
    out.push(FIELD_SEP);
    push_u64_decimal(&mut out, amount);
    proof {
        assert(out@ =~= tx_sig_input(opt_view(*from), to@, amount));
    }
    out
}

/// Appends the full canonical record of a transaction.
pub(crate) fn push_tx_record(out: &mut Vec<u8>, t: &Transaction)
    ensures
        final(out)@ == old(out)@ + tx_record(*t),
{
    push_opt_str(out, &t.from_address);
    out.push(FIELD_SEP);
    push_len_prefixed(out, t.to_address.as_str());
    out.push(FIELD_SEP);
    push_u64_decimal(out, t.amount);
    out.push(FIELD_SEP);
    push_opt_str(out, &t.signature);
    out.push(FIELD_SEP);
    push_opt_str(out, &t.hash);
    out.push(RECORD_END);
    proof {
        assert(final(out)@ =~= old(out)@ + tx_record(*t));
    }
}

impl Clone for Transaction {
    /// A clone carries exactly the same fields.
    fn clone(&self) -> (r: Self)
        ensures
            r == *self,
    {
        let from_address = match &self.from_address {
            Option::None => Option::None,
            Option::Some(s) => Option::Some(s.clone()),
        };
        let signature = match &self.signature {
            Option::None => Option::None,
            Option::Some(s) => Option::Some(s.clone()),
        };
        let hash = match &self.hash {
            Option::None => Option::None,
            Option::Some(s) => Option::Some(s.clone()),
        };
        Transaction {
            from_address,
            to_address: self.to_address.clone(),
            amount: self.amount,
            signature,
            hash,
        }
    }
}

/// Clones a transaction list element by element; the copy holds exactly the
/// same transactions.
pub(crate) fn clone_transactions(v: &Vec<Transaction>) -> (r: Vec<Transaction>)
    ensures
        r@ == v@,
{
    let mut r: Vec<Transaction> = Vec::new();
    let mut i: usize = 0;
    while i < v.len()
        invariant
            i <= v@.len(),
            r@ =~= v@.take(i as int),
        decreases v@.len() - i,
    {
        r.push(v[i].clone());
        i = i + 1;
    }
    proof {
        assert(v@.take(v@.len() as int) =~= v@);
    }
    r
}

impl Transaction {
    /// Computes the hex content hash over the given sender, recipient and
    /// amount. Purely a function of its arguments.
    pub fn calculate_hash(from_address: &Option<String>, to_address: &str, amount: u64) -> (r:
        String)
        ensures
            r@ == tx_sig_hash(opt_view(*from_address), to_address@, amount),
            r@.len() == 64,
    {
        let input = tx_sig_input_bytes(from_address, to_address, amount);
        let digest = sha3_256(input.as_slice());
        hex_encode(digest.as_slice())
    }

    /// Signs the transaction with the given private key.
    ///
    /// Succeeds exactly when the sender address and the key are well-formed
    /// and correspond; on success the content hash and signature are set
    /// together, and the signed transaction validates as `Ok(true)`. On any
    /// failure the transaction is left in its pre-call state.
    pub fn sign(&mut self, signing_key: &str) -> (r: Result<(), SignError>)
        ensures
            r == sign_outcome(*old(self), signing_key@),
            r is Err ==> *final(self) == *old(self),
            r is Ok ==> final(self).from_address == old(self).from_address,
            r is Ok ==> final(self).to_address == old(self).to_address,
            r is Ok ==> final(self).amount == old(self).amount,
            r is Ok ==> opt_view(final(self).hash) == Option::Some(
                tx_sig_hash(
                    opt_view(old(self).from_address),
                    old(self).to_address@,
                    old(self).amount,
                ),
            ),
            r is Ok ==> opt_view(final(self).signature) == Option::Some(
                hex_of(
                    ecdsa_sig_der(
                        signing_key@,
                        sha3_of(
                            tx_sig_input(
                                opt_view(old(self).from_address),
                                old(self).to_address@,
                                old(self).amount,
                            ),
                        ),
                    ),
                ),
            ),
            r is Ok ==> tx_validation(*final(self)) == Result::<bool, ValidationError>::Ok(true),
    {
        let pk_c = match &self.from_address {
            Option::None => {
                return Result::Err(SignError::MissingSenderAddress);
            },
            Option::Some(from) => match parse_public_key(from.as_str()) {
                Option::None => {
                    return Result::Err(SignError::InvalidPublicKey);
                },
                Option::Some(v) => v,
            },
        };
        let sk_c = match derive_public_key(signing_key) {
            Option::None => {
                return Result::Err(SignError::InvalidPrivateKey);
            },
            Option::Some(v) => v,
        };
        if !bytes_eq(&pk_c, &sk_c) {
            return Result::Err(SignError::KeyMismatch);
        }
        let input = tx_sig_input_bytes(&self.from_address, self.to_address.as_str(), self.amount);
        let digest = sha3_256(input.as_slice());
        let sig = sign_digest(signing_key, &digest);
        let hash_hex = hex_encode(digest.as_slice());
        let sig_hex = hex_encode(sig.as_slice());
        self.hash = Option::Some(hash_hex);
        self.signature = Option::Some(sig_hex);
        proof {
            lemma_hex_roundtrip(digest@);
            lemma_hex_roundtrip(sig@);
        }
        Result::Ok(())
    }

    /// Validates the transaction.
    ///
    /// A sender-less reward transaction is always valid. Otherwise the
    /// verdict is `Ok(true)` exactly when the stored content hash matches the
    /// hash recomputed from the current fields and the signature verifies
    /// against the sender's key; malformed parts surface as distinct errors.
    pub fn is_valid(&self) -> (r: Result<bool, ValidationError>)
        ensures
            r == tx_validation(*self),
            self.from_address is None ==> r == Result::<bool, ValidationError>::Ok(true),
    {
        let from = match &self.from_address {
            Option::None => {
                return Result::Ok(true);
            },
            Option::Some(from) => from,
        };
        let sig = match &self.signature {
            Option::None => {
                return Result::Err(ValidationError::MissingSignature);
            },
            Option::Some(sig) => sig,
        };
        if sig.as_str().is_empty() {
            return Result::Err(ValidationError::MissingSignature);
        }
        if parse_public_key(from.as_str()).is_none() {
            return Result::Err(ValidationError::InvalidPublicKey);
        }
        let h = match &self.hash {
            Option::None => {
                return Result::Err(ValidationError::MissingHash);
            },
            Option::Some(h) => h,
        };
        let msg = match hex_decode(h.as_str()) {
            Option::None => {
                return Result::Err(ValidationError::InvalidHashEncoding);
            },
            Option::Some(v) => v,
        };
        if msg.len() != 32 {
            return Result::Err(ValidationError::InvalidMessage);
        }
        let sig_bytes = match hex_decode(sig.as_str()) {
            Option::None => {
                return Result::Err(ValidationError::InvalidSignatureEncoding);
            },
            Option::Some(v) => v,
        };
        let expected = Transaction::calculate_hash(
            &self.from_address,
            self.to_address.as_str(),
            self.amount,
        );
        let binding_ok = *h == expected;
        match verify_signature(from.as_str(), &msg, &sig_bytes) {
            Option::None => Result::Err(ValidationError::InvalidSignature),
            Option::Some(b) => Result::Ok(binding_ok && b),
        }
    }
}

/// For a fixed sender, recipient and amount the content hash is one value:
/// two computations of it agree.
pub proof fn lemma_tx_hash_deterministic(
    from: Option<Seq<char>>,
    to: Seq<char>,
    amount: u64,
    h1: Seq<char>,
    h2: Seq<char>,
)
    requires
        h1 == tx_sig_hash(from, to, amount),
        h2 == tx_sig_hash(from, to, amount),
    ensures
        h1 == h2,
{
}

/// Tamper detection, up to hash collision: take a transaction that
/// validates as `Ok(true)`, and change its sender, recipient or amount
/// without re-signing. By [`lemma_tx_sig_input_injective`] the changed
/// fields render to different digest-input bytes, so the premise that the
/// content hashes differ fails only on a SHA3-256 collision; whenever they
/// differ, the changed transaction validates as `Ok(false)`.
pub proof fn lemma_tampering_detected(t: Transaction, t2: Transaction)
    requires
        tx_validation(t) == Result::<bool, ValidationError>::Ok(true),
        t.from_address is Some,
        t2.from_address is Some,
        t2.signature == t.signature,
        t2.hash == t.hash,
        pk_canon(t2.from_address->Some_0@) is Some,
        tx_sig_hash(opt_view(t2.from_address), t2.to_address@, t2.amount) != tx_sig_hash(
            opt_view(t.from_address),
            t.to_address@,
            t.amount,
        ),
    ensures
        tx_validation(t2) == Result::<bool, ValidationError>::Ok(false),
{
}

/// A transaction without a sender is a system-issued reward and validates as
/// `Ok(true)` whatever its signature and hash fields hold.
pub proof fn lemma_reward_transaction_valid(t: Transaction)
    requires
        t.from_address is None,
    ensures
        tx_validation(t) == Result::<bool, ValidationError>::Ok(true),
{
}

} // verus!
