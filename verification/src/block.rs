//! Blocks: ordered containers of transactions with a content hash and a
//! proof-of-work mining routine.

use crate::crypto::current_time_rfc3339;
use crate::digest::{
    dec_digits, hex_encode, hex_of, lemma_dec_digits_injective, lemma_digits_term_prefix,
    push_u64_decimal, sha3_256, sha3_of,
};
use crate::transaction::{
    lemma_len_prefixed_prefix, lemma_tx_record_prefix, len_prefixed, push_len_prefixed,
    push_tx_record, tx_record, tx_validation, tx_view_eq, Transaction, ValidationError, FIELD_SEP,
};
use vstd::prelude::*;

verus! {

/// A block of the chain: transactions, link to the previous block, and the
/// proof-of-work fields.
#[derive(Debug)]
pub struct Block {
    /// Creation time as RFC 3339 text, fixed at construction.
    pub timestamp: String,
    /// The transactions included in this block, in order.
    pub transactions: Vec<Transaction>,
    /// The hash of the previous block in the chain.
    pub previous_hash: String,
    /// The hex content hash of this block.
    pub hash: String,
    /// The counter the mining loop increments.
    pub nonce: u64,
}

/// The concatenated canonical records of a sequence of transactions.
pub open spec fn txs_records(txs: Seq<Transaction>) -> Seq<u8>
    decreases txs.len(),
{
    if txs.len() == 0 {
        seq![]
    } else {
        txs_records(txs.drop_last()) + tx_record(txs.last())
    }
}

/// The byte sequence a block's hash is computed over: the transaction
/// count, the transaction records, then the length-prefixed timestamp and
/// previous hash and the nonce. Count and length prefixes make the input
/// injective in all its parts.
pub open spec fn block_hash_input(
    timestamp: Seq<char>,
    txs: Seq<Transaction>,
    prev: Seq<char>,
    nonce: u64,
) -> Seq<u8> {
    dec_digits(txs.len()) + seq![FIELD_SEP] + (txs_records(txs) + (len_prefixed(timestamp) + (
    seq![FIELD_SEP] + (len_prefixed(prev) + (seq![FIELD_SEP] + dec_digits(nonce as nat))))))
}

/// The hex hash of a block with the given fields.
pub open spec fn block_hash_hex(
    timestamp: Seq<char>,
    txs: Seq<Transaction>,
    prev: Seq<char>,
    nonce: u64,
) -> Seq<char> {
    hex_of(sha3_of(block_hash_input(timestamp, txs, prev, nonce)))
}

/// Whether a block's stored hash equals the hash recomputed from its own
/// current fields.
pub open spec fn block_hash_ok(b: Block) -> bool {
    b.hash@ == block_hash_hex(b.timestamp@, b.transactions@, b.previous_hash@, b.nonce)
}

/// Whether a hash's first `difficulty` characters are all '0'.
pub open spec fn hash_meets_difficulty(s: Seq<char>, difficulty: nat) -> bool {
    difficulty <= s.len() && forall|i: int| 0 <= i < difficulty ==> s[i] == '0'
}

/// The verdict a block's transaction scan owes: the first explicitly invalid
/// transaction yields `Ok(false)`; validation errors are skipped while the
/// scan goes on, and the first of them is reported only when no transaction
/// is explicitly invalid.
pub open spec fn txs_verdict(s: Seq<Transaction>) -> Result<bool, ValidationError>
    decreases s.len(),
{
    if s.len() == 0 {
        Result::Ok(true)
    } else {
        match tx_validation(s[0]) {
            Result::Ok(b) => if !b {
                Result::Ok(false)
            } else {
                txs_verdict(s.drop_first())
            },
            Result::Err(e) => match txs_verdict(s.drop_first()) {
                Result::Ok(b) => if !b {
                    Result::Ok(false)
                } else {
                    Result::Err(e)
                },
                Result::Err(_) => Result::Err(e),
            },
        }
    }
}

/// Whether the first `difficulty` characters of `h` are all '0'.
fn check_difficulty(h: &str, difficulty: usize) -> (r: bool)
    ensures
        r == hash_meets_difficulty(h@, difficulty as nat),
{
    let len = h.unicode_len();
    if difficulty > len {
        return false;
    }
    let mut i: usize = 0;
    while i < difficulty
        invariant
            i <= difficulty <= h@.len(),
            forall|j: int| 0 <= j < i ==> h@[j] == '0',
        decreases difficulty - i,
    {
        if h.get_char(i) != '0' {
            return false;
        }
        i = i + 1;
    }
    true
}

/// Scans the transactions from index `i` on, with the verdict of
/// [`txs_verdict`] over the remaining suffix.
fn scan_transactions(txs: &Vec<Transaction>, i: usize) -> (r: Result<bool, ValidationError>)
    requires
        i <= txs@.len(),
    ensures
        r == txs_verdict(txs@.skip(i as int)),
    decreases txs@.len() - i,
{
    if i == txs.len() {
        proof {
            assert(txs@.skip(i as int) =~= Seq::<Transaction>::empty());
        }
        return Result::Ok(true);
    }
    proof {
        assert(txs@.skip(i as int)[0] == txs@[i as int]);
        assert(txs@.skip(i as int).drop_first() =~= txs@.skip(i as int + 1));
    }
    match txs[i].is_valid() {
        Result::Ok(b) => {
            if !b {
                Result::Ok(false)
            } else {
                scan_transactions(txs, i + 1)
            }
        },
        Result::Err(e) => {
            match scan_transactions(txs, i + 1) {
                Result::Ok(b) => {
                    if !b {
                        Result::Ok(false)
                    } else {
                        Result::Err(e)
                    }
                },
                Result::Err(_) => Result::Err(e),
            }
        },
    }
}

impl Block {
    /// Computes the hex hash over the given block fields. Purely a function
    /// of its arguments.
    #[verifier::rlimit(100)]
    pub fn calculate_hash(
        timestamp: &str,
        transactions: &[Transaction],
        previous_hash: &str,
        nonce: u64,
    ) -> (r: String)
        ensures
            r@ == block_hash_hex(timestamp@, transactions@, previous_hash@, nonce),
            r@.len() == 64,
    {
        let mut out: Vec<u8> = Vec::new();
        push_u64_decimal(&mut out, transactions.len() as u64);
        out.push(FIELD_SEP);
        let ghost head: Seq<u8> = out@;
        proof {
            assert(head =~= dec_digits(transactions@.len()) + seq![FIELD_SEP]);
            assert(txs_records(transactions@.take(0)) =~= Seq::<u8>::empty());
            assert(out@ =~= head + txs_records(transactions@.take(0)));
        }
        let mut i: usize = 0;
        while i < transactions.len()
            invariant
                i <= transactions@.len(),
                head == dec_digits(transactions@.len()) + seq![FIELD_SEP],
                out@ == head + txs_records(transactions@.take(i as int)),
            decreases transactions@.len() - i,
        {
            push_tx_record(&mut out, vstd::slice::slice_index_get(transactions, i));
            i = i + 1;
            proof {
                assert(transactions@.take(i as int).drop_last() =~= transactions@.take(
                    i as int - 1,
                ));
                assert(transactions@.take(i as int).last() == transactions@[i as int - 1]);
                assert(out@ =~= head + txs_records(transactions@.take(i as int)));
            }
        }
        proof {
            assert(transactions@.take(transactions@.len() as int) =~= transactions@);
        }
        push_len_prefixed(&mut out, timestamp);
        out.push(FIELD_SEP);
        push_len_prefixed(&mut out, previous_hash);
        out.push(FIELD_SEP);
        push_u64_decimal(&mut out, nonce);
        proof {
            assert(out@ =~= block_hash_input(timestamp@, transactions@, previous_hash@, nonce));
        }
        let digest = sha3_256(out.as_slice());
        hex_encode(digest.as_slice())
    }

    /// Creates a block over the given transactions, stamped with the current
    /// time, linked to `previous_hash`, with nonce 0 and its hash computed.
    pub fn new(transactions: Vec<Transaction>, previous_hash: String) -> (r: Block)
        ensures
            r.transactions == transactions,
            r.previous_hash == previous_hash,
            r.nonce == 0,
            block_hash_ok(r),
    {
        let timestamp = current_time_rfc3339();
        let hash = Self::calculate_hash(
            timestamp.as_str(),
            transactions.as_slice(),
            previous_hash.as_str(),
            0,
        );
        Block { timestamp, transactions, previous_hash, hash, nonce: 0 }
    }

    /// Mines the block: increments the nonce and recomputes the hash until
    /// the hash has `difficulty` leading zero characters.
    ///
    /// The nonce search is capped at the nonce type's full range, so mining
    /// reports whether it found a satisfying nonce instead of looping without
    /// bound; on success the final nonce is the least satisfying one at or
    /// above the starting nonce. The block's hash always matches its fields
    /// again when mining returns.
    pub fn mine_block(&mut self, difficulty: usize) -> (found: bool)
        requires
            block_hash_ok(*old(self)),
        ensures
            final(self).timestamp == old(self).timestamp,
            final(self).transactions == old(self).transactions,
            final(self).previous_hash == old(self).previous_hash,
            block_hash_ok(*final(self)),
            final(self).nonce >= old(self).nonce,
            found == hash_meets_difficulty(final(self).hash@, difficulty as nat),
            forall|n: u64|
                old(self).nonce <= n < final(self).nonce ==> !hash_meets_difficulty(
                    block_hash_hex(
                        old(self).timestamp@,
                        old(self).transactions@,
                        old(self).previous_hash@,
                        n,
                    ),
                    difficulty as nat,
                ),
            !found ==> final(self).nonce == u64::MAX,
    {
        let ghost start_nonce = self.nonce;
        let mut ok = check_difficulty(self.hash.as_str(), difficulty);
        while !ok && self.nonce < u64::MAX
            invariant
                self.timestamp == old(self).timestamp,
                self.transactions == old(self).transactions,
                self.previous_hash == old(self).previous_hash,
                block_hash_ok(*self),
                self.nonce >= start_nonce,
                ok == hash_meets_difficulty(self.hash@, difficulty as nat),
                forall|n: u64|
                    start_nonce <= n < self.nonce ==> !hash_meets_difficulty(
                        block_hash_hex(
                            old(self).timestamp@,
                            old(self).transactions@,
                            old(self).previous_hash@,
                            n,
                        ),
                        difficulty as nat,
                    ),
            decreases u64::MAX - self.nonce,
        {
            self.nonce = self.nonce + 1;
            self.hash = Self::calculate_hash(
                self.timestamp.as_str(),
                self.transactions.as_slice(),
                self.previous_hash.as_str(),
                self.nonce,
            );
            ok = check_difficulty(self.hash.as_str(), difficulty);
        }
        ok
    }

    /// Validates the block's transactions.
    ///
    /// Returns `Ok(false)` as soon as a transaction is explicitly invalid; a
    /// transaction whose validation errors does not by itself invalidate the
    /// block, but the first such error is reported as `Err` so the caller can
    /// log it or, as the chain does, treat it as fatal.
    pub fn has_valid_transactions(&self) -> (r: Result<bool, ValidationError>)
        ensures
            r == txs_verdict(self.transactions@),
    {
        let r = scan_transactions(&self.transactions, 0);
        proof {
            assert(self.transactions@.skip(0) =~= self.transactions@);
        }
        r
    }
}

/// A non-empty record concatenation is its first record followed by the
/// concatenation of the rest.
proof fn lemma_txs_records_cons(s: Seq<Transaction>)
    requires
        s.len() > 0,
    ensures
        txs_records(s) == tx_record(s[0]) + txs_records(s.drop_first()),
    decreases s.len(),
{
    if s.len() == 1 {
        assert(s.drop_last() =~= Seq::<Transaction>::empty());
        assert(s.drop_first() =~= Seq::<Transaction>::empty());
        assert(s[0] == s.last());
        assert(txs_records(s) =~= tx_record(s[0]) + txs_records(s.drop_first()));
    } else {
        lemma_txs_records_cons(s.drop_last());
        assert(s.drop_last()[0] == s[0]);
        assert(s.drop_first().drop_last() =~= s.drop_last().drop_first());
        assert(s.drop_first().last() == s.last());
        assert(txs_records(s.drop_first()) == txs_records(s.drop_first().drop_last())
            + tx_record(s.drop_first().last()));
        assert(txs_records(s) =~= tx_record(s[0]) + txs_records(s.drop_first()));
    }
}

/// Two equally long record lists whose concatenations open two equal byte
/// sequences have pairwise equal field views, and the two remainders are
/// equal: a record list of known length parses unambiguously.
#[verifier::rlimit(100)]
proof fn lemma_txs_records_prefix(
    s1: Seq<Transaction>,
    s2: Seq<Transaction>,
    r1: Seq<u8>,
    r2: Seq<u8>,
)
    requires
        s1.len() == s2.len(),
        txs_records(s1) + r1 == txs_records(s2) + r2,
    ensures
        forall|i: int| 0 <= i < s1.len() ==> tx_view_eq(#[trigger] s1[i], s2[i]),
        r1 == r2,
    decreases s1.len(),
{
    if s1.len() == 0 {
        assert(txs_records(s1) =~= Seq::<u8>::empty());
        assert(txs_records(s2) =~= Seq::<u8>::empty());
        assert(r1 =~= txs_records(s1) + r1);
        assert(r2 =~= txs_records(s2) + r2);
    } else {
        lemma_txs_records_cons(s1);
        lemma_txs_records_cons(s2);
        assert(txs_records(s1) + r1 =~= tx_record(s1[0]) + (txs_records(s1.drop_first()) + r1));
        assert(txs_records(s2) + r2 =~= tx_record(s2[0]) + (txs_records(s2.drop_first()) + r2));
        lemma_tx_record_prefix(
            s1[0],
            s2[0],
            txs_records(s1.drop_first()) + r1,
            txs_records(s2.drop_first()) + r2,
        );
        lemma_txs_records_prefix(s1.drop_first(), s2.drop_first(), r1, r2);
        assert forall|i: int| 0 <= i < s1.len() implies tx_view_eq(#[trigger] s1[i], s2[i]) by {
            if i > 0 {
                assert(s1.drop_first()[i - 1] == s1[i]);
                assert(s2.drop_first()[i - 1] == s2[i]);
                assert(tx_view_eq(s1.drop_first()[i - 1], s2.drop_first()[i - 1]));
            }
        }
    }
}

/// The block-hash input is injective: two inputs agree only when the
/// timestamps, previous hashes, nonces and every transaction's field views
/// agree. Equal block hashes of differing blocks therefore need a digest
/// collision.
#[verifier::rlimit(100)]
pub proof fn lemma_block_hash_input_injective(
    ts1: Seq<char>,
    txs1: Seq<Transaction>,
    p1: Seq<char>,
    n1: u64,
    ts2: Seq<char>,
    txs2: Seq<Transaction>,
    p2: Seq<char>,
    n2: u64,
)
    requires
        block_hash_input(ts1, txs1, p1, n1) == block_hash_input(ts2, txs2, p2, n2),
    ensures
        ts1 == ts2,
        p1 == p2,
        n1 == n2,
        txs1.len() == txs2.len(),
        forall|i: int| 0 <= i < txs1.len() ==> tx_view_eq(#[trigger] txs1[i], txs2[i]),
{
    let rest1 = txs_records(txs1) + (len_prefixed(ts1) + (seq![FIELD_SEP] + (len_prefixed(p1) + (
    seq![FIELD_SEP] + dec_digits(n1 as nat)))));
    let rest2 = txs_records(txs2) + (len_prefixed(ts2) + (seq![FIELD_SEP] + (len_prefixed(p2) + (
    seq![FIELD_SEP] + dec_digits(n2 as nat)))));
    lemma_digits_term_prefix(txs1.len(), txs2.len(), FIELD_SEP, rest1, rest2);
    lemma_txs_records_prefix(
        txs1,
        txs2,
        len_prefixed(ts1) + (seq![FIELD_SEP] + (len_prefixed(p1) + (seq![FIELD_SEP] + dec_digits(
            n1 as nat,
        )))),
        len_prefixed(ts2) + (seq![FIELD_SEP] + (len_prefixed(p2) + (seq![FIELD_SEP] + dec_digits(
            n2 as nat,
        )))),
    );
    lemma_len_prefixed_prefix(
        ts1,
        ts2,
        seq![FIELD_SEP] + (len_prefixed(p1) + (seq![FIELD_SEP] + dec_digits(n1 as nat))),
        seq![FIELD_SEP] + (len_prefixed(p2) + (seq![FIELD_SEP] + dec_digits(n2 as nat))),
    );
    let u1 = len_prefixed(p1) + (seq![FIELD_SEP] + dec_digits(n1 as nat));
    let u2 = len_prefixed(p2) + (seq![FIELD_SEP] + dec_digits(n2 as nat));
    assert forall|i: int| 0 <= i < u1.len() implies u1[i] == u2[i] by {
        assert((seq![FIELD_SEP] + u1)[1 + i] == u1[i]);
        assert((seq![FIELD_SEP] + u2)[1 + i] == u2[i]);
    }
    assert(u1 =~= u2);
    lemma_len_prefixed_prefix(
        p1,
        p2,
        seq![FIELD_SEP] + dec_digits(n1 as nat),
        seq![FIELD_SEP] + dec_digits(n2 as nat),
    );
    let d1 = dec_digits(n1 as nat);
    let d2 = dec_digits(n2 as nat);
    assert forall|i: int| 0 <= i < d1.len() implies d1[i] == d2[i] by {
        assert((seq![FIELD_SEP] + d1)[1 + i] == d1[i]);
        assert((seq![FIELD_SEP] + d2)[1 + i] == d2[i]);
    }
    assert(d1 =~= d2);
    lemma_dec_digits_injective(n1 as nat, n2 as nat);
}

/// A scan over transactions that all validate as `Ok(true)` ends in
/// `Ok(true)`.
pub proof fn lemma_txs_verdict_all_valid(s: Seq<Transaction>)
    requires
        forall|i: int| 0 <= i < s.len() ==> tx_validation(#[trigger] s[i]) == Result::<
            bool,
            ValidationError,
        >::Ok(true),
    ensures
        txs_verdict(s) == Result::<bool, ValidationError>::Ok(true),
    decreases s.len(),
{
    if s.len() > 0 {
        assert(tx_validation(s[0]) == Result::<bool, ValidationError>::Ok(true));
        lemma_txs_verdict_all_valid(s.drop_first());
    }
}

} // verus!
