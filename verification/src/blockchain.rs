//! The chain: transaction intake, mining, balance accounting, and
//! end-to-end structural validation.
//!
//! Chain validation here is strict: every block's stored hash must equal the
//! hash recomputed from its own fields, every block's transactions must
//! validate cleanly (a validation error counts as invalid at this level),
//! and each block must link to the hash of its predecessor. In particular a
//! field of any block — the newest included — mutated without recomputing
//! its hash makes the chain invalid.

use crate::block::{
    block_hash_hex, block_hash_ok, hash_meets_difficulty, txs_verdict, Block,
    lemma_txs_verdict_all_valid,
};
use crate::digest::str_eq;
use crate::transaction::{
    clone_transactions, lemma_reward_transaction_valid, opt_view, tx_validation, Transaction,
    TransactionError, ValidationError,
};
use vstd::prelude::*;
use vstd::string::StringExecFns;

verus! {

/// The chain of mined blocks, with the pool of transactions awaiting the
/// next mining step.
#[derive(Debug)]
pub struct Blockchain {
    /// The chain of mined blocks; index 0 is the genesis block.
    pub chain: Vec<Block>,
    /// How many leading zero characters a mined block's hash must have.
    pub difficulty: usize,
    /// Transactions accepted but not yet included in a mined block.
    pub pending_transactions: Vec<Transaction>,
    /// The amount credited to whoever triggers mining.
    pub mining_reward: u64,
}

/// What chain validity asks of the block at index `i`: its stored hash
/// matches its fields, its transactions validate cleanly, and its hash is
/// the `previous_hash` of its successor, if it has one.
pub open spec fn chain_block_ok(blocks: Seq<Block>, i: int) -> bool
    recommends
        0 <= i < blocks.len(),
{
    &&& block_hash_ok(blocks[i])
    &&& txs_verdict(blocks[i].transactions@) == Result::<bool, ValidationError>::Ok(true)
    &&& (i + 1 < blocks.len() ==> blocks[i].hash@ == blocks[i + 1].previous_hash@)
}

/// Whether a whole chain of blocks is structurally valid.
pub open spec fn chain_valid(blocks: Seq<Block>) -> bool {
    forall|i: int| 0 <= i < blocks.len() ==> #[trigger] chain_block_ok(blocks, i)
}

/// What a transaction contributes to an address's balance: credit when the
/// address receives, debit when it sends, nothing otherwise. The receiving
/// arm wins: a transfer whose sender and recipient are the same address is
/// credited, not debited, as the replay's else-if has always read.
pub open spec fn tx_delta(t: Transaction, address: Seq<char>) -> int {
    if t.to_address@ == address {
        t.amount as int
    } else if opt_view(t.from_address) == Option::Some(address) {
        -(t.amount as int)
    } else {
        0
    }
}

/// The net balance an address draws from a sequence of transactions.
pub open spec fn txs_balance(s: Seq<Transaction>, address: Seq<char>) -> int
    decreases s.len(),
{
    if s.len() == 0 {
        0
    } else {
        txs_balance(s.drop_last(), address) + tx_delta(s.last(), address)
    }
}

/// The net balance an address draws from a sequence of blocks.
pub open spec fn blocks_balance(blocks: Seq<Block>, address: Seq<char>) -> int
    decreases blocks.len(),
{
    if blocks.len() == 0 {
        0
    } else {
        blocks_balance(blocks.drop_last(), address) + txs_balance(
            blocks.last().transactions@,
            address,
        )
    }
}

/// The sum of all amounts in a sequence of transactions.
pub open spec fn txs_total(s: Seq<Transaction>) -> nat
    decreases s.len(),
{
    if s.len() == 0 {
        0
    } else {
        txs_total(s.drop_last()) + s.last().amount as nat
    }
}

/// The sum of all amounts in a sequence of blocks.
pub open spec fn blocks_total(blocks: Seq<Block>) -> nat
    decreases blocks.len(),
{
    if blocks.len() == 0 {
        0
    } else {
        blocks_total(blocks.drop_last()) + txs_total(blocks.last().transactions@)
    }
}

/// Whether the chain accepts a submitted transaction: it must carry a
/// sender, a non-empty recipient, and must not validate as explicitly
/// invalid. A transaction whose validation errors is still accepted; the
/// error is the submitter's to deal with, as in block-level checking.
pub open spec fn transaction_accepted(t: Transaction) -> bool {
    &&& t.from_address is Some
    &&& t.to_address@.len() > 0
    &&& tx_validation(t) != Result::<bool, ValidationError>::Ok(false)
}

/// Whether `t` is the reward transaction mining builds: sender-less, paying
/// `amount` to `address`, unsigned and unhashed.
pub open spec fn is_reward_tx(t: Transaction, address: Seq<char>, amount: u64) -> bool {
    &&& t.from_address is None
    &&& t.to_address@ == address
    &&& t.amount == amount
    &&& t.signature is None
    &&& t.hash is None
}

/// The amounts in a prefix of a transaction sequence sum to no more than the
/// amounts in the whole of it.
pub proof fn lemma_txs_total_take(s: Seq<Transaction>, i: int)
    requires
        0 <= i <= s.len(),
    ensures
        txs_total(s.take(i)) <= txs_total(s),
    decreases s.len() - i,
{
    if i == s.len() {
        assert(s.take(i) =~= s);
    } else {
        lemma_txs_total_take(s, i + 1);
        assert(s.take(i + 1).drop_last() =~= s.take(i));
    }
}

/// The amounts in a prefix of a block sequence sum to no more than the
/// amounts in the whole of it.
pub proof fn lemma_blocks_total_take(blocks: Seq<Block>, i: int)
    requires
        0 <= i <= blocks.len(),
    ensures
        blocks_total(blocks.take(i)) <= blocks_total(blocks),
    decreases blocks.len() - i,
{
    if i == blocks.len() {
        assert(blocks.take(i) =~= blocks);
    } else {
        lemma_blocks_total_take(blocks, i + 1);
        assert(blocks.take(i + 1).drop_last() =~= blocks.take(i));
    }
}

/// Appending a block adds exactly that block's net flow to every address's
/// balance.
pub proof fn lemma_balance_after_block(blocks: Seq<Block>, b: Block, address: Seq<char>)
    ensures
        blocks_balance(blocks.push(b), address) == blocks_balance(blocks, address) + txs_balance(
            b.transactions@,
            address,
        ),
{
    assert(blocks.push(b).drop_last() =~= blocks);
}

/// Appending a transaction adds exactly its delta to every address's
/// balance over the sequence.
pub proof fn lemma_balance_after_transaction(s: Seq<Transaction>, t: Transaction, address: Seq<char>)
    ensures
        txs_balance(s.push(t), address) == txs_balance(s, address) + tx_delta(t, address),
{
    assert(s.push(t).drop_last() =~= s);
}

/// Tamper detection at chain level, up to hash collision: a block whose
/// stored hash no longer matches the hash recomputed from its own fields
/// makes any chain holding it invalid. Mutating any field of a block — a
/// transaction's amount included — without recomputing its hash leaves the
/// two differing unless the digest collides, which a collision-resistant
/// digest makes overwhelmingly unlikely.
pub proof fn lemma_block_tampering_detected(blocks: Seq<Block>, k: int, b2: Block)
    requires
        0 <= k < blocks.len(),
        b2.hash@ != block_hash_hex(b2.timestamp@, b2.transactions@, b2.previous_hash@, b2.nonce),
    ensures
        !chain_valid(blocks.update(k, b2)),
{
    assert(!chain_block_ok(blocks.update(k, b2), k));
}

/// A valid chain stays valid when a block with a correct hash, cleanly
/// validating transactions, and a link to the last block's hash is appended.
pub proof fn lemma_mined_block_extends_valid_chain(blocks: Seq<Block>, b: Block)
    requires
        chain_valid(blocks),
        block_hash_ok(b),
        txs_verdict(b.transactions@) == Result::<bool, ValidationError>::Ok(true),
        blocks.len() > 0 ==> b.previous_hash@ == blocks.last().hash@,
    ensures
        chain_valid(blocks.push(b)),
{
    let ext = blocks.push(b);
    assert forall|i: int| 0 <= i < ext.len() implies #[trigger] chain_block_ok(ext, i) by {
        if i < blocks.len() {
            assert(chain_block_ok(blocks, i));
            assert(ext[i] == blocks[i]);
            if i + 1 < blocks.len() {
                assert(ext[i + 1] == blocks[i + 1]);
            } else {
                assert(ext[i + 1] == b);
                assert(blocks[i] == blocks.last());
            }
        } else {
            assert(ext[i] == b);
        }
    }
}

/// Mining preserves chain validity and pays the reward: when every mined
/// transaction but the final reward validates cleanly, the extended chain is
/// valid, and every address's balance moves by its net flow in the mined
/// block — for the reward address, the reward plus what it receives minus
/// what it sends there.
pub proof fn lemma_chain_valid_after_mining(
    blocks: Seq<Block>,
    b: Block,
    address: Seq<char>,
    amount: u64,
)
    requires
        chain_valid(blocks),
        block_hash_ok(b),
        b.transactions@.len() > 0,
        is_reward_tx(b.transactions@.last(), address, amount),
        forall|i: int| 0 <= i < b.transactions@.len() - 1 ==> tx_validation(
            #[trigger] b.transactions@[i],
        ) == Result::<bool, ValidationError>::Ok(true),
        blocks.len() > 0 ==> b.previous_hash@ == blocks.last().hash@,
    ensures
        chain_valid(blocks.push(b)),
        blocks_balance(blocks.push(b), address) == blocks_balance(blocks, address) + txs_balance(
            b.transactions@.drop_last(),
            address,
        ) + amount,
{
    let txs = b.transactions@;
    lemma_reward_transaction_valid(txs.last());
    assert forall|i: int| 0 <= i < txs.len() implies tx_validation(#[trigger] txs[i]) == Result::<
        bool,
        ValidationError,
    >::Ok(true) by {
        if i == txs.len() - 1 {
            assert(txs[i] == txs.last());
        }
    }
    lemma_txs_verdict_all_valid(txs);
    lemma_mined_block_extends_valid_chain(blocks, b);
    lemma_balance_after_block(blocks, b, address);
    assert(txs.drop_last().push(txs.last()) =~= txs);
    lemma_balance_after_transaction(txs.drop_last(), txs.last(), address);
    assert(tx_delta(txs.last(), address) == amount);
}

impl Blockchain {
    /// Creates a chain holding only a genesis block: no transactions,
    /// previous hash "0". A fresh chain is valid.
    pub fn new(difficulty: usize, mining_reward: u64) -> (r: Blockchain)
        ensures
            r.difficulty == difficulty,
            r.mining_reward == mining_reward,
            r.pending_transactions@.len() == 0,
            r.chain@.len() == 1,
            r.chain@[0].transactions@.len() == 0,
            r.chain@[0].previous_hash@ == "0"@,
            r.chain@[0].nonce == 0,
            block_hash_ok(r.chain@[0]),
            chain_valid(r.chain@),
    {
        let genesis_block = Block::new(Vec::new(), String::from_str("0"));
        let mut chain: Vec<Block> = Vec::new();
        chain.push(genesis_block);
        let r = Blockchain { chain, difficulty, pending_transactions: Vec::new(), mining_reward };
        proof {
            assert forall|i: int| 0 <= i < r.chain@.len() implies #[trigger] chain_block_ok(
                r.chain@,
                i,
            ) by {
                assert(txs_verdict(r.chain@[0].transactions@) == Result::<
                    bool,
                    ValidationError,
                >::Ok(true));
            }
        }
        r
    }

    /// The last block of the chain, if any.
    fn get_latest_block(&self) -> (r: Option<&Block>)
        ensures
            match r {
                Option::Some(b) => self.chain@.len() > 0 && *b == self.chain@.last(),
                Option::None => self.chain@.len() == 0,
            },
    {
        if self.chain.len() == 0 {
            Option::None
        } else {
            Option::Some(&self.chain[self.chain.len() - 1])
        }
    }

    /// Mines the pending transactions into one new block.
    ///
    /// A sender-less reward transaction paying the mining reward to
    /// `mining_reward_address` joins the pending pool; one block over the
    /// whole pool, linked to the last block's hash, is mined at the chain's
    /// difficulty and appended; the pool is cleared. Exactly one block is
    /// appended per call, and the reward transaction is included even when
    /// the pool was empty. Returns whether the nonce search satisfied the
    /// difficulty before exhausting the nonce range.
    pub fn mine_pending_transactions(&mut self, mining_reward_address: String) -> (found: bool)
        ensures
            final(self).difficulty == old(self).difficulty,
            final(self).mining_reward == old(self).mining_reward,
            final(self).pending_transactions@.len() == 0,
            final(self).chain@.len() == old(self).chain@.len() + 1,
            final(self).chain@.drop_last() == old(self).chain@,
            final(self).chain@.last().transactions@ == old(self).pending_transactions@.push(
                final(self).chain@.last().transactions@.last(),
            ),
            final(self).chain@.last().transactions@.len() == old(
                self,
            ).pending_transactions@.len() + 1,
            is_reward_tx(
                final(self).chain@.last().transactions@.last(),
                mining_reward_address@,
                old(self).mining_reward,
            ),
            final(self).chain@.last().previous_hash@ == if old(self).chain@.len() > 0 {
                old(self).chain@.last().hash@
            } else {
                "GenesisBlockHash"@
            },
            block_hash_ok(final(self).chain@.last()),
            found == hash_meets_difficulty(
                final(self).chain@.last().hash@,
                old(self).difficulty as nat,
            ),
            forall|n: u64|
                n < final(self).chain@.last().nonce ==> !hash_meets_difficulty(
                    block_hash_hex(
                        final(self).chain@.last().timestamp@,
                        final(self).chain@.last().transactions@,
                        final(self).chain@.last().previous_hash@,
                        n,
                    ),
                    old(self).difficulty as nat,
                ),
            !found ==> final(self).chain@.last().nonce == u64::MAX,
    {
        let reward_transaction = Transaction {
            from_address: Option::None,
            to_address: mining_reward_address,
            amount: self.mining_reward,
            signature: Option::None,
            hash: Option::None,
        };
        self.pending_transactions.push(reward_transaction);

        let prev_block_hash: String = match self.get_latest_block() {
            Option::Some(block) => block.hash.clone(),
            Option::None => String::from_str("GenesisBlockHash"),
        };

        let txs = clone_transactions(&self.pending_transactions);
        let mut block = Block::new(txs, prev_block_hash);
        let found = block.mine_block(self.difficulty);

        self.chain.push(block);
        self.pending_transactions = Vec::new();
        proof {
            assert(final(self).chain@.drop_last() =~= old(self).chain@);
        }
        found
    }

    /// Adds a transaction to the pending pool.
    ///
    /// Rejected without touching the pool when the sender is absent, the
    /// recipient is empty, or validation explicitly returns `false`. A
    /// transaction whose validation errors is accepted, as at block level;
    /// the chain's own validation later treats such a transaction as
    /// invalid.
    pub fn add_transaction(&mut self, transaction: Transaction) -> (r: Result<
        (),
        TransactionError,
    >)
        ensures
            final(self).chain == old(self).chain,
            final(self).difficulty == old(self).difficulty,
            final(self).mining_reward == old(self).mining_reward,
            transaction_accepted(transaction) ==> r == Result::<(), TransactionError>::Ok(())
                && final(self).pending_transactions@ == old(self).pending_transactions@.push(
                transaction,
            ),
            !transaction_accepted(transaction) ==> r == Result::<(), TransactionError>::Err(
                TransactionError::InvalidTransaction,
            ) && final(self).pending_transactions == old(self).pending_transactions,
    {
        let has_sender = match &transaction.from_address {
            Option::Some(_) => true,
            Option::None => false,
        };
        if !has_sender || transaction.to_address.as_str().is_empty() {
            return Result::Err(TransactionError::InvalidTransaction);
        }

        match transaction.is_valid() {
            Result::Ok(is_valid) => {
                if !is_valid {
                    return Result::Err(TransactionError::InvalidTransaction);
                }
            },
            Result::Err(_) => {},
        }

        self.pending_transactions.push(transaction);
        Result::Ok(())
    }

    /// The balance of an address: every block's every transaction replayed
    /// in order, credits for amounts received, debits for amounts sent.
    ///
    /// The bound on the chain's total amounts is what keeps the running
    /// balance within the return type's range.
    pub fn get_balance_of_address(&self, address: &str) -> (r: i128)
        requires
            blocks_total(self.chain@) <= i128::MAX,
        ensures
            r == blocks_balance(self.chain@, address@),
    {
        let ghost blocks = self.chain@;
        let mut balance: i128 = 0;
        let mut i: usize = 0;
        while i < self.chain.len()
            invariant
                blocks == self.chain@,
                blocks_total(blocks) <= i128::MAX,
                i <= blocks.len(),
                balance == blocks_balance(blocks.take(i as int), address@),
                -(blocks_total(blocks.take(i as int)) as int) <= balance <= blocks_total(
                    blocks.take(i as int),
                ) as int,
            decreases blocks.len() - i,
        {
            let block = &self.chain[i];
            let ghost txs = block.transactions@;
            let ghost base = balance;
            let mut j: usize = 0;
            while j < block.transactions.len()
                invariant
                    blocks == self.chain@,
                    blocks_total(blocks) <= i128::MAX,
                    i < blocks.len(),
                    txs == blocks[i as int].transactions@,
                    block == &self.chain[i as int],
                    j <= txs.len(),
                    base == blocks_balance(blocks.take(i as int), address@),
                    -(blocks_total(blocks.take(i as int)) as int) <= base <= blocks_total(
                        blocks.take(i as int),
                    ) as int,
                    balance == base + txs_balance(txs.take(j as int), address@),
                    -(blocks_total(blocks.take(i as int)) as int) - txs_total(
                        txs.take(j as int),
                    ) <= balance <= blocks_total(blocks.take(i as int)) + txs_total(
                        txs.take(j as int),
                    ),
                decreases txs.len() - j,
            {
                let transaction = &block.transactions[j];
                proof {
                    assert(txs.take(j as int + 1).drop_last() =~= txs.take(j as int));
                    assert(txs.take(j as int + 1).last() == txs[j as int]);
                    lemma_blocks_total_take(blocks, i as int + 1);
                    assert(blocks.take(i as int + 1).drop_last() =~= blocks.take(i as int));
                    assert(blocks.take(i as int + 1).last() == blocks[i as int]);
                    lemma_txs_total_take(txs, j as int + 1);
                }
                if str_eq(transaction.to_address.as_str(), address) {
                    balance = balance + transaction.amount as i128;
                } else {
                    let is_sender = match &transaction.from_address {
                        Option::Some(f) => str_eq(f.as_str(), address),
                        Option::None => false,
                    };
                    if is_sender {
                        balance = balance - transaction.amount as i128;
                    }
                }
                j = j + 1;
            }
            proof {
                assert(txs.take(txs.len() as int) =~= txs);
                assert(blocks.take(i as int + 1).drop_last() =~= blocks.take(i as int));
                assert(blocks.take(i as int + 1).last() == blocks[i as int]);
                lemma_blocks_total_take(blocks, i as int + 1);
            }
            i = i + 1;
        }
        proof {
            assert(blocks.take(blocks.len() as int) =~= blocks);
        }
        balance
    }

    /// Validates the whole chain: every block's stored hash equals the hash
    /// recomputed from its fields, every block's transactions validate
    /// cleanly, and every block links to the hash of its predecessor. A
    /// fresh chain (genesis only) is valid.
    pub fn is_valid(&self) -> (r: bool)
        ensures
            r == chain_valid(self.chain@),
    {
        let mut i: usize = 0;
        while i < self.chain.len()
            invariant
                i <= self.chain@.len(),
                forall|j: int| 0 <= j < i ==> #[trigger] chain_block_ok(self.chain@, j),
            decreases self.chain@.len() - i,
        {
            let block = &self.chain[i];
            let recomputed = Block::calculate_hash(
                block.timestamp.as_str(),
                block.transactions.as_slice(),
                block.previous_hash.as_str(),
                block.nonce,
            );
            if !str_eq(block.hash.as_str(), recomputed.as_str()) {
                proof {
                    assert(!chain_block_ok(self.chain@, i as int));
                }
                return false;
            }
            let verdict_ok = match block.has_valid_transactions() {
                Result::Ok(v) => v,
                Result::Err(_) => false,
            };
            if !verdict_ok {
                proof {
                    assert(!chain_block_ok(self.chain@, i as int));
                }
                return false;
            }
            if i + 1 < self.chain.len() {
                let next_block = &self.chain[i + 1];
                if !str_eq(block.hash.as_str(), next_block.previous_hash.as_str()) {
                    proof {
                        assert(!chain_block_ok(self.chain@, i as int));
                    }
                    return false;
                }
            }
            i = i + 1;
        }
        true
    }
}

} // verus!
