//! Human-readable rendering of ledger state, for diagnostics and demos. The
//! output carries no behavioural contract beyond being exactly the character
//! sequence the spec-level rendering functions describe.
use vstd::prelude::*;

use vstd::string::StringExecFns;
use crate::blockchain::{Block, Blockchain, Transaction};
use crate::consensus::spec_hash_of;

verus! {

/// The character for one decimal digit.
pub open spec fn spec_digit_char(d: int) -> char {
    if d == 0 {
        '0'
    } else if d == 1 {
        '1'
    } else if d == 2 {
        '2'
    } else if d == 3 {
        '3'
    } else if d == 4 {
        '4'
    } else if d == 5 {
        '5'
    } else if d == 6 {
        '6'
    } else if d == 7 {
        '7'
    } else if d == 8 {
        '8'
    } else {
        '9'
    }
}

/// The decimal digit sequence of `n`, most significant digit first.
pub open spec fn spec_dec(n: nat) -> Seq<char>
    decreases n,
{
    if n < 10 {
        seq![spec_digit_char(n as int)]
    } else {
        spec_dec(n / 10).push(spec_digit_char((n % 10) as int))
    }
}

fn digit_str(d: u64) -> (s: &'static str)
    requires
        d < 10,
    ensures
        s@ == seq![spec_digit_char(d as int)],
{
    proof {
        reveal_strlit("0");
        reveal_strlit("1");
        reveal_strlit("2");
        reveal_strlit("3");
        reveal_strlit("4");
        reveal_strlit("5");
        reveal_strlit("6");
        reveal_strlit("7");
        reveal_strlit("8");
        reveal_strlit("9");
    }
    if d == 0 {
        "0"
    } else if d == 1 {
        "1"
    } else if d == 2 {
        "2"
    } else if d == 3 {
        "3"
    } else if d == 4 {
        "4"
    } else if d == 5 {
        "5"
    } else if d == 6 {
        "6"
    } else if d == 7 {
        "7"
    } else if d == 8 {
        "8"
    } else {
        "9"
    }
}

/// The decimal rendering of `n`.
pub fn u64_to_string(n: u64) -> (s: String)
    ensures
        s@ == spec_dec(n as nat),
    decreases n,
{
    if n < 10 {
        digit_str(n).to_owned()
    } else {
        let mut s = u64_to_string(n / 10);
        s.append(digit_str(n % 10));
        proof {
            assert(s@ =~= spec_dec(n as nat));
        }
        s
    }
}

/// The one-line description of a transaction.
pub open spec fn spec_render_transaction(t: Transaction) -> Seq<char> {
    "Transaction for "@ + spec_dec(t.amount as nat) + ": "@ + t.sender@ + " (sender) -> "@
        + t.recipient@ + " (recipient)"@
}

/// The listing of a block's transactions, one indented line each.
pub open spec fn spec_render_block_txs(txs: Seq<Transaction>) -> Seq<char>
    decreases txs.len(),
{
    if txs.len() == 0 {
        Seq::empty()
    } else {
        spec_render_block_txs(txs.drop_last()) + "|-| "@ + spec_render_transaction(txs.last())
            + "\n"@
    }
}

/// The multi-line description of a block.
pub open spec fn spec_render_block(b: Block) -> Seq<char> {
    "------ Block: "@ + spec_dec(b.index as nat) + " ------\n| Time: "@ + spec_dec(
        b.timestamp as nat,
    ) + "\n| Proof: "@ + spec_dec(b.proof as nat) + "\n| Current Hash: "@ + spec_hash_of(b)
        + "\n| Previous Hash: "@ + b.previous_hash@ + "\n| #Transactions: "@ + spec_dec(
        b.transactions@.len(),
    ) + "\n"@ + spec_render_block_txs(b.transactions@) + "----------------------"@
}

/// The chain part of a ledger's description: each block, linked by arrows.
pub open spec fn spec_render_chain(blocks: Seq<Block>) -> Seq<char>
    decreases blocks.len(),
{
    if blocks.len() == 0 {
        Seq::empty()
    } else {
        spec_render_chain(blocks.drop_last()) + spec_render_block(blocks.last()) + "\n|\nv\n"@
    }
}

/// The pending part of a ledger's description, one line per transaction.
pub open spec fn spec_render_pending(txs: Seq<Transaction>) -> Seq<char>
    decreases txs.len(),
{
    if txs.len() == 0 {
        Seq::empty()
    } else {
        spec_render_pending(txs.drop_last()) + spec_render_transaction(txs.last()) + "\n"@
    }
}

/// The whole ledger's description: the chain, then the pending pool.
pub open spec fn spec_render_ledger(l: Blockchain) -> Seq<char> {
    spec_render_chain(l.chain@) + "Current transactions pending: "@ + spec_dec(
        l.current_transactions@.len(),
    ) + "\n"@ + spec_render_pending(l.current_transactions@)
}

impl Transaction {
    /// A deterministic, human-readable one-line description.
    pub fn render(&self) -> (s: String)
        ensures
            s@ == spec_render_transaction(*self),
    {
        let mut s = "Transaction for ".to_owned();
        s.append(u64_to_string(self.amount).as_str());
        s.append(": ");
        s.append(self.sender.as_str());
        s.append(" (sender) -> ");
        s.append(self.recipient.as_str());
        s.append(" (recipient)");
        proof {
            assert(s@ =~= spec_render_transaction(*self));
        }
        s
    }
}

impl Block {
    /// A deterministic, human-readable multi-line description.
    pub fn render(&self) -> (s: String)
        ensures
            s@ == spec_render_block(*self),
    {
        let mut s = "------ Block: ".to_owned();
        s.append(u64_to_string(self.index as u64).as_str());
        s.append(" ------\n| Time: ");
        s.append(u64_to_string(self.timestamp).as_str());
        s.append("\n| Proof: ");
        s.append(u64_to_string(self.proof).as_str());
        s.append("\n| Current Hash: ");
        s.append(Blockchain::hash(self).as_str());
        s.append("\n| Previous Hash: ");
        s.append(self.previous_hash.as_str());
        s.append("\n| #Transactions: ");
        s.append(u64_to_string(self.transactions.len() as u64).as_str());
        s.append("\n");
        let mut j: usize = 0;
        while j < self.transactions.len()
            invariant
                j <= self.transactions@.len(),
                s@ == "------ Block: "@ + spec_dec(self.index as nat) + " ------\n| Time: "@
                    + spec_dec(self.timestamp as nat) + "\n| Proof: "@ + spec_dec(
                    self.proof as nat,
                ) + "\n| Current Hash: "@ + spec_hash_of(*self) + "\n| Previous Hash: "@
                    + self.previous_hash@ + "\n| #Transactions: "@ + spec_dec(
                    self.transactions@.len(),
                ) + "\n"@ + spec_render_block_txs(self.transactions@.subrange(0, j as int)),
            decreases self.transactions@.len() - j,
        {
            s.append("|-| ");
            s.append(self.transactions[j].render().as_str());
            s.append("\n");
            proof {
                assert(self.transactions@.subrange(0, j as int + 1).drop_last()
                    =~= self.transactions@.subrange(0, j as int));
                assert(s@ =~= "------ Block: "@ + spec_dec(self.index as nat)
                    + " ------\n| Time: "@ + spec_dec(self.timestamp as nat) + "\n| Proof: "@
                    + spec_dec(self.proof as nat) + "\n| Current Hash: "@ + spec_hash_of(*self)
                    + "\n| Previous Hash: "@ + self.previous_hash@ + "\n| #Transactions: "@
                    + spec_dec(self.transactions@.len()) + "\n"@ + spec_render_block_txs(
                    self.transactions@.subrange(0, j as int + 1),
                ));
            }
            j = j + 1;
        }
        s.append("----------------------");
        proof {
            assert(self.transactions@.subrange(0, self.transactions@.len() as int)
                =~= self.transactions@);
            assert(s@ =~= spec_render_block(*self));
        }
        s
    }
}

impl Blockchain {
    /// A deterministic, human-readable description of the whole ledger.
    pub fn render(&self) -> (s: String)
        ensures
            s@ == spec_render_ledger(*self),
    {
        let mut s = String::new();
        let mut i: usize = 0;
        while i < self.chain.len()
            invariant
                i <= self.chain@.len(),
                s@ == spec_render_chain(self.chain@.subrange(0, i as int)),
            decreases self.chain@.len() - i,
        {
            s.append(self.chain[i].render().as_str());
            s.append("\n|\nv\n");
            proof {
                assert(self.chain@.subrange(0, i as int + 1).drop_last() =~= self.chain@.subrange(
                    0,
                    i as int,
                ));
                assert(s@ =~= spec_render_chain(self.chain@.subrange(0, i as int + 1)));
            }
            i = i + 1;
        }
        proof {
            assert(self.chain@.subrange(0, self.chain@.len() as int) =~= self.chain@);
        }
        s.append("Current transactions pending: ");
        s.append(u64_to_string(self.current_transactions.len() as u64).as_str());
        s.append("\n");
        let ghost head = s@;
        let mut k: usize = 0;
        while k < self.current_transactions.len()
            invariant
                k <= self.current_transactions@.len(),
                head == spec_render_chain(self.chain@) + "Current transactions pending: "@
                    + spec_dec(self.current_transactions@.len()) + "\n"@,
                s@ == head + spec_render_pending(self.current_transactions@.subrange(0, k as int)),
            decreases self.current_transactions@.len() - k,
        {
            s.append(self.current_transactions[k].render().as_str());
            s.append("\n");
            proof {
                assert(self.current_transactions@.subrange(0, k as int + 1).drop_last()
                    =~= self.current_transactions@.subrange(0, k as int));
                assert(s@ =~= head + spec_render_pending(
                    self.current_transactions@.subrange(0, k as int + 1),
                ));
            }
            k = k + 1;
        }
        proof {
            assert(self.current_transactions@.subrange(
                0,
                self.current_transactions@.len() as int,
            ) =~= self.current_transactions@);
            assert(s@ =~= spec_render_ledger(*self));
        }
        s
    }
}

} // verus!
