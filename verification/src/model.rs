//! The mathematical model of the ledger: the balance fold over transaction
//! sequences, the flattening of a chain into its sealed transactions, and the
//! lemmas the executable code is proved against.
use vstd::prelude::*;

use crate::blockchain::{Block, Blockchain, Transaction, GENESIS_CREDIT, GENESIS_PROOF};

verus! {

/// The distinguished account allowed to carry a negative balance: it mints
/// all value that enters the ledger.
pub open spec fn genesis_id() -> Seq<char> {
    "Genesis"@
}

/// How one transaction moves account `a`'s balance: down by `amount` when
/// `a` sends, up by `amount` when `a` receives (net zero when `a` is both).
pub open spec fn tx_delta(t: Transaction, a: Seq<char>) -> int {
    (if t.recipient@ == a {
        t.amount as int
    } else {
        0int
    }) - (if t.sender@ == a {
        t.amount as int
    } else {
        0int
    })
}

/// Account `a`'s balance after folding every transaction of `txs`, in order,
/// starting from zero.
pub open spec fn spec_balance(txs: Seq<Transaction>, a: Seq<char>) -> int
    decreases txs.len(),
{
    if txs.len() == 0 {
        0
    } else {
        spec_balance(txs.drop_last(), a) + tx_delta(txs.last(), a)
    }
}

/// The sum of all transaction amounts of `txs`: a bound on how far any one
/// balance can stray from zero.
pub open spec fn txs_amount_sum(txs: Seq<Transaction>) -> int
    decreases txs.len(),
{
    if txs.len() == 0 {
        0
    } else {
        txs_amount_sum(txs.drop_last()) + txs.last().amount as int
    }
}

/// Every transaction of every sealed block of `chain`, in chain order and,
/// within a block, in admission order.
pub open spec fn chain_txs(chain: Seq<Block>) -> Seq<Transaction>
    decreases chain.len(),
{
    if chain.len() == 0 {
        Seq::empty()
    } else {
        chain_txs(chain.drop_last()) + chain.last().transactions@
    }
}

/// Whether account `a` takes part in any transaction of `txs`.
pub open spec fn account_appears(txs: Seq<Transaction>, a: Seq<char>) -> bool {
    exists|k: int| 0 <= k < txs.len() && (txs[k].sender@ == a || txs[k].recipient@ == a)
}

pub proof fn lemma_sum_nonneg(txs: Seq<Transaction>)
    ensures
        txs_amount_sum(txs) >= 0,
    decreases txs.len(),
{
    if txs.len() > 0 {
        lemma_sum_nonneg(txs.drop_last());
    }
}

/// A balance never strays from zero by more than the sum of all amounts.
pub proof fn lemma_balance_bounded(txs: Seq<Transaction>, a: Seq<char>)
    ensures
        -txs_amount_sum(txs) <= spec_balance(txs, a) <= txs_amount_sum(txs),
    decreases txs.len(),
{
    if txs.len() > 0 {
        lemma_balance_bounded(txs.drop_last(), a);
    }
}

pub proof fn lemma_sum_append(t1: Seq<Transaction>, t2: Seq<Transaction>)
    ensures
        txs_amount_sum(t1 + t2) == txs_amount_sum(t1) + txs_amount_sum(t2),
    decreases t2.len(),
{
    if t2.len() == 0 {
        assert(t1 + t2 =~= t1);
    } else {
        lemma_sum_append(t1, t2.drop_last());
        assert((t1 + t2).drop_last() =~= t1 + t2.drop_last());
    }
}

/// Extending a chain prefix by one block appends that block's transactions.
pub proof fn lemma_chain_txs_prefix_step(chain: Seq<Block>, i: int)
    requires
        0 <= i < chain.len(),
    ensures
        chain_txs(chain.subrange(0, i + 1)) == chain_txs(chain.subrange(0, i))
            + chain[i].transactions@,
{
    assert(chain.subrange(0, i + 1).drop_last() =~= chain.subrange(0, i));
    assert(chain.subrange(0, i + 1).last() == chain[i]);
}

/// A whole chain is the prefix of itself of full length.
pub proof fn lemma_chain_txs_full_prefix(chain: Seq<Block>)
    ensures
        chain_txs(chain.subrange(0, chain.len() as int)) == chain_txs(chain),
{
    assert(chain.subrange(0, chain.len() as int) =~= chain);
}

/// The state of a freshly constructed ledger: one genesis block at index
/// zero with an empty link, a fixed accepted proof, and exactly the two
/// fixed credits from the genesis account; no pending transactions. Only the
/// creation instant is left open.
pub open spec fn is_genesis_state(l: Blockchain) -> bool {
    &&& l.chain@.len() == 1
    &&& l.chain@[0].index == 0
    &&& l.chain@[0].proof == GENESIS_PROOF
    &&& l.chain@[0].previous_hash@ == Seq::<char>::empty()
    &&& l.chain@[0].transactions@.len() == 2
    &&& l.chain@[0].transactions@[0].sender@ == genesis_id()
    &&& l.chain@[0].transactions@[0].recipient@ == "senderA"@
    &&& l.chain@[0].transactions@[0].amount == GENESIS_CREDIT
    &&& l.chain@[0].transactions@[1].sender@ == genesis_id()
    &&& l.chain@[0].transactions@[1].recipient@ == "senderC"@
    &&& l.chain@[0].transactions@[1].amount == GENESIS_CREDIT
    &&& l.current_transactions@.len() == 0
}

/// An account taking part in some transactions still does after more are
/// appended.
pub proof fn lemma_appears_extend(t1: Seq<Transaction>, t2: Seq<Transaction>, a: Seq<char>)
    requires
        account_appears(t1, a),
    ensures
        account_appears(t1 + t2, a),
{
    let k = choose|k: int| 0 <= k < t1.len() && (t1[k].sender@ == a || t1[k].recipient@ == a);
    assert((t1 + t2)[k].sender@ == a || (t1 + t2)[k].recipient@ == a);
}

/// An account taking part after one more transaction either already took
/// part, or is one of the two parties of that transaction.
pub proof fn lemma_appears_split(t1: Seq<Transaction>, t: Transaction, a: Seq<char>)
    requires
        account_appears(t1.push(t), a),
    ensures
        account_appears(t1, a) || t.sender@ == a || t.recipient@ == a,
{
    let k = choose|k: int|
        0 <= k < t1.push(t).len() && (t1.push(t)[k].sender@ == a || t1.push(t)[k].recipient@
            == a);
    if k < t1.len() {
        assert(t1[k].sender@ == a || t1[k].recipient@ == a);
    } else {
        assert(t1.push(t)[k] == t);
    }
}

/// The sum of the amounts of a transaction-sequence prefix never exceeds the
/// sum over the whole sequence.
pub proof fn lemma_sum_prefix_bound(txs: Seq<Transaction>, k: int)
    requires
        0 <= k <= txs.len(),
    ensures
        txs_amount_sum(txs.subrange(0, k)) <= txs_amount_sum(txs),
{
    assert(txs =~= txs.subrange(0, k) + txs.subrange(k, txs.len() as int));
    lemma_sum_append(txs.subrange(0, k), txs.subrange(k, txs.len() as int));
    lemma_sum_nonneg(txs.subrange(k, txs.len() as int));
}

/// The amounts sealed into a chain prefix never sum to more than those of
/// the whole chain.
pub proof fn lemma_chain_sum_prefix(chain: Seq<Block>, k: int)
    requires
        0 <= k <= chain.len(),
    ensures
        txs_amount_sum(chain_txs(chain.subrange(0, k))) <= txs_amount_sum(chain_txs(chain)),
    decreases chain.len() - k,
{
    if k < chain.len() {
        lemma_chain_txs_prefix_step(chain, k);
        lemma_sum_append(chain_txs(chain.subrange(0, k)), chain[k].transactions@);
        lemma_sum_nonneg(chain[k].transactions@);
        lemma_chain_sum_prefix(chain, k + 1);
    } else {
        lemma_chain_txs_full_prefix(chain);
    }
}

impl Blockchain {
    /// Every transaction sealed into the chain, in order.
    pub open spec fn sealed_txs(self) -> Seq<Transaction> {
        chain_txs(self.chain@)
    }

    /// Every transaction the ledger holds: sealed ones, then pending ones.
    pub open spec fn all_txs(self) -> Seq<Transaction> {
        self.sealed_txs() + self.current_transactions@
    }

    /// Account `a`'s authoritative balance: the fold over sealed blocks only.
    /// Pending transactions do not count until sealed.
    pub open spec fn spec_balance_of(self, a: Seq<char>) -> int {
        spec_balance(self.sealed_txs(), a)
    }

    /// Well-formedness of a ledger: the chain is never empty, block indexes
    /// are contiguous from zero, and the total transacted value fits the
    /// machine's signed arithmetic. Every constructor establishes it and
    /// every operation preserves it.
    pub open spec fn wf(self) -> bool {
        &&& self.chain@.len() >= 1
        &&& forall|i: int| 0 <= i < self.chain@.len() ==> (#[trigger] self.chain@[i].index) == i
        &&& txs_amount_sum(self.all_txs()) <= i128::MAX
    }
}

} // verus!
