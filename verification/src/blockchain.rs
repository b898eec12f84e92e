//! The ledger's value types and its operations: transaction admission,
//! balance accounting, and block sealing.
use vstd::prelude::*;

use crate::model::{
    account_appears, chain_txs, genesis_id, is_genesis_state, lemma_appears_extend,
    lemma_appears_split, lemma_balance_bounded, lemma_chain_sum_prefix,
    lemma_chain_txs_full_prefix, lemma_chain_txs_prefix_step, lemma_sum_append,
    lemma_sum_nonneg, lemma_sum_prefix_bound, spec_balance, txs_amount_sum,
};

verus! {

/// The proof value the genesis block carries; never checked, only linked to.
pub const GENESIS_PROOF: u64 = 100;

/// The amount each of the two genesis credits carries.
pub const GENESIS_CREDIT: u64 = 5000;

/// A single transfer of `amount` units from `sender` to `recipient`.
#[derive(Debug, Clone)]
pub struct Transaction {
    pub sender: String,
    pub recipient: String,
    pub amount: u64,
}

/// A sealed batch of transactions at a fixed position in the chain.
#[derive(Debug)]
pub struct Block {
    pub index: usize,
    /// Creation instant, in microseconds since the Unix epoch. The block's
    /// digest is computed from this field alone, so `previous_hash` links
    /// blocks by creation instant, not by content: a pedagogical
    /// simplification, not a tamper-evidence guarantee.
    pub timestamp: u64,
    pub transactions: Vec<Transaction>,
    pub proof: u64,
    pub previous_hash: String,
}

/// The ledger: an append-only chain of sealed blocks and the pool of
/// transactions admitted but not yet sealed.
#[derive(Debug)]
pub struct Blockchain {
    pub chain: Vec<Block>,
    pub current_transactions: Vec<Transaction>,
}

/// Every failure a ledger operation can report. All are recoverable: the
/// ledger is left unchanged and the caller may retry with corrected input.
#[derive(Debug, Clone, Copy, PartialEq, Eq, Structural)]
pub enum LedgerError {
    /// A non-genesis sender's sealed balance cannot cover the requested amount.
    InsufficientBalance,
    /// The supplied proof fails the consensus predicate against the last block.
    InvalidProof,
    /// The chain holds no block; cannot occur on a constructed ledger.
    EmptyChain,
    /// The bounded proof-of-work search exhausted its ceiling.
    ProofNotFound,
}

impl Transaction {
    fn new(sender: String, recipient: String, amount: u64) -> (t: Transaction)
        ensures
            t.sender == sender,
            t.recipient == recipient,
            t.amount == amount,
    {
        Transaction { sender, recipient, amount }
    }
}

/// The name of the distinguished minting account, as an owned string.
pub fn genesis_account() -> (s: String)
    ensures
        s@ == genesis_id(),
{
    "Genesis".to_owned()
}

/// Relies on std's `SystemTime::now`: the result is the machine clock's
/// current reading in microseconds since the Unix epoch (zero if the clock
/// sits before the epoch), and nothing is promised of it.
#[verifier::external_body]
fn now_micros() -> u64 {
    match std::time::SystemTime::now().duration_since(std::time::UNIX_EPOCH) {
        Ok(d) => d.as_micros() as u64,
        Err(_) => 0,
    }
}

impl Block {
    fn new(previous_hash: String, proof: u64) -> (b: Block)
        ensures
            b.index == 0,
            b.transactions@ == Seq::<Transaction>::empty(),
            b.proof == proof,
            b.previous_hash == previous_hash,
    {
        Block {
            index: 0,
            timestamp: now_micros(),
            transactions: Vec::new(),
            proof,
            previous_hash,
        }
    }
}

impl Blockchain {
    /// Construct a ledger holding only the genesis block: two fixed credits
    /// from the genesis account to two named accounts, and no pending
    /// transactions.
    pub fn new() -> (r: Blockchain)
        ensures
            r.wf(),
            is_genesis_state(r),
            txs_amount_sum(r.all_txs()) == 10000,
    {
        let first_hash = String::new();
        let mut first_block = Block::new(first_hash, GENESIS_PROOF);
        let tx1 = Transaction::new(genesis_account(), "senderA".to_owned(), GENESIS_CREDIT);
        let tx2 = Transaction::new(genesis_account(), "senderC".to_owned(), GENESIS_CREDIT);
        let mut genesis_txs: Vec<Transaction> = Vec::new();
        genesis_txs.push(tx1);
        genesis_txs.push(tx2);
        first_block.transactions = genesis_txs;
        let mut chain: Vec<Block> = Vec::new();
        chain.push(first_block);
        let r = Blockchain { chain, current_transactions: Vec::new() };
        proof {
            reveal_with_fuel(chain_txs, 2);
            reveal_with_fuel(txs_amount_sum, 3);
            assert(r.chain@.drop_last() =~= Seq::<Block>::empty());
            assert(r.sealed_txs() =~= r.chain@[0].transactions@);
            assert(r.all_txs() =~= r.sealed_txs());
            let ts = r.sealed_txs();
            assert(ts.drop_last().drop_last() =~= Seq::<Transaction>::empty());
            assert(txs_amount_sum(ts) == 10000);
        }
        r
    }

    /// The position of the last sealed block.
    fn last_block_index(&self) -> (i: usize)
        requires
            self.chain@.len() >= 1,
        ensures
            i == self.chain@.len() - 1,
    {
        self.chain.len() - 1
    }

    /// Account `account`'s authoritative balance: one linear pass over every
    /// sealed transaction, in chain order. Pending transactions are not
    /// counted until they are sealed.
    pub fn balance_of(&self, account: &String) -> (r: i128)
        requires
            self.wf(),
        ensures
            r as int == self.spec_balance_of(account@),
    {
        proof {
            lemma_sum_nonneg(self.current_transactions@);
            lemma_sum_append(self.sealed_txs(), self.current_transactions@);
        }
        let mut bal: i128 = 0;
        let mut i: usize = 0;
        while i < self.chain.len()
            invariant
                self.wf(),
                txs_amount_sum(self.sealed_txs()) <= i128::MAX,
                i <= self.chain@.len(),
                bal as int == spec_balance(
                    chain_txs(self.chain@.subrange(0, i as int)),
                    account@,
                ),
            decreases self.chain@.len() - i,
        {
            let ghost prefix_txs = chain_txs(self.chain@.subrange(0, i as int));
            let ghost btxs = self.chain@[i as int].transactions@;
            let mut j: usize = 0;
            while j < self.chain[i].transactions.len()
                invariant
                    self.wf(),
                    txs_amount_sum(self.sealed_txs()) <= i128::MAX,
                    i < self.chain@.len(),
                    prefix_txs == chain_txs(self.chain@.subrange(0, i as int)),
                    btxs == self.chain@[i as int].transactions@,
                    j <= btxs.len(),
                    bal as int == spec_balance(
                        prefix_txs + btxs.subrange(0, j as int),
                        account@,
                    ),
                decreases btxs.len() - j,
            {
                let t_amount = self.chain[i].transactions[j].amount;
                let is_recipient = self.chain[i].transactions[j].recipient == *account;
                let is_sender = self.chain[i].transactions[j].sender == *account;
                proof {
                    let pcur = prefix_txs + btxs.subrange(0, j as int);
                    let pnext = prefix_txs + btxs.subrange(0, j as int + 1);
                    let t = btxs[j as int];
                    assert(pnext =~= pcur.push(t));
                    assert(pcur.push(t).drop_last() =~= pcur);
                    lemma_balance_bounded(pcur, account@);
                    lemma_sum_append(prefix_txs, btxs.subrange(0, j as int));
                    lemma_sum_append(prefix_txs, btxs.subrange(0, j as int + 1));
                    lemma_sum_append(prefix_txs, btxs);
                    lemma_sum_prefix_bound(btxs, j as int + 1);
                    lemma_sum_nonneg(btxs.subrange(0, j as int));
                    lemma_sum_nonneg(prefix_txs);
                    lemma_chain_txs_prefix_step(self.chain@, i as int);
                    lemma_chain_sum_prefix(self.chain@, i as int + 1);
                }
                if is_recipient {
                    bal = bal + t_amount as i128;
                }
                if is_sender {
                    bal = bal - t_amount as i128;
                }
                j = j + 1;
            }
            proof {
                assert(btxs.subrange(0, btxs.len() as int) =~= btxs);
                lemma_chain_txs_prefix_step(self.chain@, i as int);
            }
            i = i + 1;
        }
        proof {
            lemma_chain_txs_full_prefix(self.chain@);
        }
        bal
    }

    /// Whether some listed account name reads the same as `a`.
    fn contains_account(accounts: &Vec<String>, a: &String) -> (r: bool)
        ensures
            r == exists|p: int| 0 <= p < accounts@.len() && (#[trigger] accounts@[p])@ == a@,
    {
        let mut i: usize = 0;
        while i < accounts.len()
            invariant
                i <= accounts@.len(),
                forall|p: int| 0 <= p < i ==> (#[trigger] accounts@[p])@ != a@,
            decreases accounts@.len() - i,
        {
            if accounts[i] == *a {
                return true;
            }
            i = i + 1;
        }
        false
    }

    /// Every account that takes part in some sealed transaction, first
    /// appearance first, each exactly once.
    fn collect_accounts(&self) -> (accounts: Vec<String>)
        ensures
            forall|p: int, q: int|
                0 <= p < q < accounts@.len() ==> (#[trigger] accounts@[p])@ != (
                #[trigger] accounts@[q])@,
            forall|p: int|
                0 <= p < accounts@.len() ==> account_appears(
                    self.sealed_txs(),
                    (#[trigger] accounts@[p])@,
                ),
            forall|a: Seq<char>|
                #[trigger] account_appears(self.sealed_txs(), a) ==> exists|p: int|
                    0 <= p < accounts@.len() && (#[trigger] accounts@[p])@ == a,
    {
        let mut accounts: Vec<String> = Vec::new();
        let mut i: usize = 0;
        while i < self.chain.len()
            invariant
                i <= self.chain@.len(),
                forall|p: int, q: int|
                    0 <= p < q < accounts@.len() ==> (#[trigger] accounts@[p])@ != (
                    #[trigger] accounts@[q])@,
                forall|p: int|
                    0 <= p < accounts@.len() ==> account_appears(
                        chain_txs(self.chain@.subrange(0, i as int)),
                        (#[trigger] accounts@[p])@,
                    ),
                forall|a: Seq<char>|
                    #[trigger] account_appears(chain_txs(self.chain@.subrange(0, i as int)), a)
                        ==> exists|p: int|
                        0 <= p < accounts@.len() && (#[trigger] accounts@[p])@ == a,
            decreases self.chain@.len() - i,
        {
            let ghost prefix_txs = chain_txs(self.chain@.subrange(0, i as int));
            let ghost btxs = self.chain@[i as int].transactions@;
            let mut j: usize = 0;
            while j < self.chain[i].transactions.len()
                invariant
                    i < self.chain@.len(),
                    prefix_txs == chain_txs(self.chain@.subrange(0, i as int)),
                    btxs == self.chain@[i as int].transactions@,
                    j <= btxs.len(),
                    forall|p: int, q: int|
                        0 <= p < q < accounts@.len() ==> (#[trigger] accounts@[p])@ != (
                        #[trigger] accounts@[q])@,
                    forall|p: int|
                        0 <= p < accounts@.len() ==> account_appears(
                            prefix_txs + btxs.subrange(0, j as int),
                            (#[trigger] accounts@[p])@,
                        ),
                    forall|a: Seq<char>|
                        #[trigger] account_appears(prefix_txs + btxs.subrange(0, j as int), a)
                            ==> exists|p: int|
                            0 <= p < accounts@.len() && (#[trigger] accounts@[p])@ == a,
                decreases btxs.len() - j,
            {
                let ghost pcur = prefix_txs + btxs.subrange(0, j as int);
                let ghost pnext = prefix_txs + btxs.subrange(0, j as int + 1);
                let ghost t = btxs[j as int];
                let ghost acc0 = accounts@;
                let s_in = Blockchain::contains_account(
                    &accounts,
                    &self.chain[i].transactions[j].sender,
                );
                if !s_in {
                    accounts.push(self.chain[i].transactions[j].sender.clone());
                }
                let ghost acc1 = accounts@;
                let r_in = Blockchain::contains_account(
                    &accounts,
                    &self.chain[i].transactions[j].recipient,
                );
                if !r_in {
                    accounts.push(self.chain[i].transactions[j].recipient.clone());
                }
                proof {
                    assert(pnext =~= pcur.push(t));
                    assert(pnext[pcur.len() as int] == t);
                    assert forall|p: int| 0 <= p < accounts@.len() implies account_appears(
                        pnext,
                        (#[trigger] accounts@[p])@,
                    ) by {
                        if p < acc0.len() {
                            lemma_appears_extend(pcur, seq![t], acc0[p]@);
                            assert(pcur + seq![t] =~= pnext);
                        } else {
                            assert(accounts@[p]@ == t.sender@ || accounts@[p]@ == t.recipient@);
                        }
                    }
                    assert forall|a: Seq<char>| #[trigger] account_appears(pnext, a)
                        implies exists|p: int|
                        0 <= p < accounts@.len() && (#[trigger] accounts@[p])@ == a by {
                        lemma_appears_split(pcur, t, a);
                        if account_appears(pcur, a) {
                            let p = choose|p: int| 0 <= p < acc0.len() && acc0[p]@ == a;
                            assert(accounts@[p]@ == a);
                        } else if t.sender@ == a {
                            if s_in {
                                let p = choose|p: int| 0 <= p < acc0.len() && acc0[p]@ == a;
                                assert(accounts@[p]@ == a);
                            } else {
                                assert(accounts@[acc0.len() as int]@ == a);
                            }
                        } else {
                            if r_in {
                                let p = choose|p: int| 0 <= p < acc1.len() && acc1[p]@ == a;
                                assert(accounts@[p]@ == a);
                            } else {
                                assert(accounts@[acc1.len() as int]@ == a);
                            }
                        }
                    }
                }
                j = j + 1;
            }
            proof {
                assert(btxs.subrange(0, btxs.len() as int) =~= btxs);
                lemma_chain_txs_prefix_step(self.chain@, i as int);
            }
            i = i + 1;
        }
        proof {
            lemma_chain_txs_full_prefix(self.chain@);
        }
        accounts
    }

    /// The derived balance of every account the sealed chain mentions, each
    /// exactly once; accounts the chain never mentions hold zero and are not
    /// listed.
    pub fn balances(&self) -> (r: Vec<(String, i128)>)
        requires
            self.wf(),
        ensures
            forall|p: int, q: int|
                0 <= p < q < r@.len() ==> (#[trigger] r@[p]).0@ != (#[trigger] r@[q]).0@,
            forall|p: int|
                0 <= p < r@.len() ==> (#[trigger] r@[p]).1 as int == self.spec_balance_of(
                    r@[p].0@,
                ),
            forall|p: int|
                0 <= p < r@.len() ==> account_appears(self.sealed_txs(), (#[trigger] r@[p]).0@),
            forall|a: Seq<char>|
                #[trigger] account_appears(self.sealed_txs(), a) ==> exists|p: int|
                    0 <= p < r@.len() && (#[trigger] r@[p]).0@ == a,
    {
        let accounts = self.collect_accounts();
        let mut out: Vec<(String, i128)> = Vec::new();
        let mut k: usize = 0;
        while k < accounts.len()
            invariant
                self.wf(),
                k <= accounts@.len(),
                out@.len() == k,
                forall|p: int, q: int|
                    0 <= p < q < accounts@.len() ==> (#[trigger] accounts@[p])@ != (
                    #[trigger] accounts@[q])@,
                forall|p: int|
                    0 <= p < accounts@.len() ==> account_appears(
                        self.sealed_txs(),
                        (#[trigger] accounts@[p])@,
                    ),
                forall|a: Seq<char>|
                    #[trigger] account_appears(self.sealed_txs(), a) ==> exists|p: int|
                        0 <= p < accounts@.len() && (#[trigger] accounts@[p])@ == a,
                forall|p: int| 0 <= p < k ==> (#[trigger] out@[p]).0@ == accounts@[p]@,
                forall|p: int|
                    0 <= p < k ==> (#[trigger] out@[p]).1 as int == self.spec_balance_of(
                        out@[p].0@,
                    ),
            decreases accounts@.len() - k,
        {
            let name = accounts[k].clone();
            let bal = self.balance_of(&name);
            out.push((name, bal));
            k = k + 1;
        }
        proof {
            assert forall|a: Seq<char>| #[trigger] account_appears(self.sealed_txs(), a)
                implies exists|p: int| 0 <= p < out@.len() && (#[trigger] out@[p]).0@ == a by {
                let p = choose|p: int|
                    0 <= p < accounts@.len() && (#[trigger] accounts@[p])@ == a;
                assert(out@[p].0@ == a);
            }
        }
        out
    }

    /// Admit a transfer into the pending pool. The sealed chain alone backs
    /// the check: a non-genesis sender whose sealed balance cannot cover the
    /// amount is rejected with `InsufficientBalance` and the ledger is left
    /// unchanged. On success the returned index is the position the next
    /// sealed block will occupy. The capacity bound in `requires` is the one
    /// machine limit: the total transacted value must stay representable.
    ///
    /// Pending transfers are each checked against the same sealed balances,
    /// so several of them can jointly overdraw a sender before any is
    /// sealed: like the rest of the puzzle, the check is pedagogical, not a
    /// guarantee across sealing.
    pub fn new_transaction(&mut self, sender: String, recipient: String, amount: u64) -> (r:
        Result<usize, LedgerError>)
        requires
            old(self).wf(),
            txs_amount_sum(old(self).all_txs()) + amount <= i128::MAX,
        ensures
            final(self).wf(),
            final(self).chain@ == old(self).chain@,
            (sender@ == genesis_id() || old(self).spec_balance_of(sender@) >= amount) ==> {
                &&& r == Ok::<usize, LedgerError>(old(self).chain.len())
                &&& final(self).current_transactions@ == old(self).current_transactions@.push(
                    (Transaction { sender, recipient, amount }),
                )
                &&& txs_amount_sum(final(self).all_txs()) == txs_amount_sum(old(self).all_txs())
                    + amount
            },
            !(sender@ == genesis_id() || old(self).spec_balance_of(sender@) >= amount) ==> {
                &&& r == Err::<usize, LedgerError>(LedgerError::InsufficientBalance)
                &&& final(self).current_transactions@ == old(self).current_transactions@
                &&& txs_amount_sum(final(self).all_txs()) == txs_amount_sum(old(self).all_txs())
            },
    {
        let genesis = genesis_account();
        if sender != genesis {
            let sender_bal = self.balance_of(&sender);
            if sender_bal < amount as i128 {
                return Err(LedgerError::InsufficientBalance);
            }
        }
        let t = Transaction::new(sender, recipient, amount);
        self.current_transactions.push(t);
        proof {
            let sealed = self.sealed_txs();
            let pending = old(self).current_transactions@;
            assert(self.all_txs() =~= (sealed + pending).push(t));
            assert((sealed + pending).push(t).drop_last() =~= sealed + pending);
        }
        Ok(self.chain.len())
    }

    /// Mint `amount` new units for `recipient` from the genesis account.
    /// Always succeeds: the genesis account is exempt from the balance check.
    pub fn create_coin(&mut self, recipient: String, amount: u64) -> (r: Result<
        usize,
        LedgerError,
    >)
        requires
            old(self).wf(),
            txs_amount_sum(old(self).all_txs()) + amount <= i128::MAX,
        ensures
            final(self).wf(),
            final(self).chain@ == old(self).chain@,
            r == Ok::<usize, LedgerError>(old(self).chain.len()),
            final(self).current_transactions@.len() == old(self).current_transactions@.len() + 1,
            final(self).current_transactions@.drop_last() == old(self).current_transactions@,
            final(self).current_transactions@.last().sender@ == genesis_id(),
            final(self).current_transactions@.last().recipient == recipient,
            final(self).current_transactions@.last().amount == amount,
            txs_amount_sum(final(self).all_txs()) == txs_amount_sum(old(self).all_txs())
                + amount,
    {
        let r = self.new_transaction(genesis_account(), recipient, amount);
        proof {
            assert(final(self).current_transactions@.drop_last()
                =~= old(self).current_transactions@);
        }
        r
    }

    /// Seal the pending pool into a new block, provided `proof` passes the
    /// consensus predicate against the last sealed block's proof. On
    /// rejection the ledger is left byte-for-byte unchanged; on success the
    /// new block takes the next index, carries every pending transaction in
    /// admission order, links to the last block's digest, and the pool is
    /// emptied. This is the sole mutator of the chain.
    pub fn new_block(&mut self, proof: u64) -> (r: Result<(), LedgerError>)
        requires
            old(self).wf(),
        ensures
            final(self).wf(),
            txs_amount_sum(final(self).all_txs()) == txs_amount_sum(old(self).all_txs()),
            !crate::consensus::spec_valid_proof(old(self).chain@.last().proof, proof) ==> {
                &&& r == Err::<(), LedgerError>(LedgerError::InvalidProof)
                &&& final(self).chain@ == old(self).chain@
                &&& final(self).current_transactions@ == old(self).current_transactions@
            },
            crate::consensus::spec_valid_proof(old(self).chain@.last().proof, proof) ==> {
                &&& r == Ok::<(), LedgerError>(())
                &&& final(self).chain@.len() == old(self).chain@.len() + 1
                &&& final(self).chain@.subrange(0, old(self).chain@.len() as int) == old(
                    self,
                ).chain@
                &&& final(self).chain@.last().index == old(self).chain@.len()
                &&& final(self).chain@.last().transactions@ == old(self).current_transactions@
                &&& final(self).chain@.last().proof == proof
                &&& final(self).chain@.last().previous_hash@ == crate::consensus::spec_hash_of(
                    old(self).chain@.last(),
                )
                &&& final(self).current_transactions@ == Seq::<Transaction>::empty()
            },
    {
        let last = self.last_block_index();
        let last_proof = self.chain[last].proof;
        if !Blockchain::valid_proof(last_proof, proof) {
            return Err(LedgerError::InvalidProof);
        }
        let previous_hash = Blockchain::hash(&self.chain[last]);
        let index = self.chain.len();
        let timestamp = now_micros();
        let mut sealed_now: Vec<Transaction> = Vec::new();
        core::mem::swap(&mut sealed_now, &mut self.current_transactions);
        let block = Block { index, timestamp, transactions: sealed_now, proof, previous_hash };
        self.chain.push(block);
        proof {
            let oldc = old(self).chain@;
            let pending = old(self).current_transactions@;
            assert(self.chain@.drop_last() =~= oldc);
            assert(self.chain@.subrange(0, oldc.len() as int) =~= oldc);
            assert(self.sealed_txs() == chain_txs(oldc) + pending);
            lemma_sum_append(chain_txs(oldc), pending);
            assert(self.all_txs() =~= self.sealed_txs());
        }
        Ok(())
    }

    /// The proof stored in the last sealed block; `EmptyChain` only on a
    /// chain with no block at all, which a constructed ledger never has.
    pub fn last_proof(&self) -> (r: Result<u64, LedgerError>)
        ensures
            self.chain@.len() > 0 ==> r == Ok::<u64, LedgerError>(self.chain@.last().proof),
            self.chain@.len() == 0 ==> r == Err::<u64, LedgerError>(LedgerError::EmptyChain),
    {
        if self.chain.len() == 0 {
            return Err(LedgerError::EmptyChain);
        }
        let i = self.last_block_index();
        Ok(self.chain[i].proof)
    }
}

} // verus!
