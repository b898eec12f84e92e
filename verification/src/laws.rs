//! The library's stated laws, proved from the contracts and the model alone:
//! chain shape, the genesis balances, conservation of value, preservation of
//! non-negative balances under admission, and determinism of the proof
//! search.
use vstd::prelude::*;

use crate::blockchain::{Blockchain, Transaction};
use crate::consensus::spec_valid_proof;
use crate::model::{
    account_appears, chain_txs, genesis_id, is_genesis_state, spec_balance, tx_delta,
};

verus! {

/// Law: a well-formed ledger's chain is never empty, and the block at each
/// position carries that position as its index. Every constructor
/// establishes `wf` and every operation preserves it, so this holds of all
/// ledgers built through the public operations.
pub proof fn lemma_chain_indexed(l: Blockchain)
    requires
        l.wf(),
    ensures
        l.chain@.len() >= 1,
        forall|i: int| 0 <= i < l.chain@.len() ==> (#[trigger] l.chain@[i].index) == i,
{
}

/// Law: a freshly constructed ledger reflects exactly the two genesis
/// credits: the genesis account has minted twice 5000, each named recipient
/// holds 5000, and every other account holds zero.
pub proof fn lemma_genesis_balances(l: Blockchain)
    requires
        is_genesis_state(l),
    ensures
        spec_balance(l.sealed_txs(), genesis_id()) == -10000,
        spec_balance(l.sealed_txs(), "senderA"@) == 5000,
        spec_balance(l.sealed_txs(), "senderC"@) == 5000,
        forall|a: Seq<char>|
            a != genesis_id() && a != "senderA"@ && a != "senderC"@ ==> (#[trigger] spec_balance(
                l.sealed_txs(),
                a,
            )) == 0,
{
    reveal_strlit("Genesis");
    reveal_strlit("senderA");
    reveal_strlit("senderC");
    reveal_with_fuel(chain_txs, 2);
    reveal_with_fuel(spec_balance, 3);
    assert(l.chain@.drop_last() =~= Seq::<crate::blockchain::Block>::empty());
    assert(l.sealed_txs() =~= l.chain@[0].transactions@);
    let ts = l.sealed_txs();
    assert(ts.drop_last().drop_last() =~= Seq::<Transaction>::empty());
    assert(genesis_id()[0] == 'G');
    assert("senderA"@[0] == 's');
    assert("senderA"@[6] == 'A');
    assert("senderC"@[6] == 'C');
    assert(genesis_id() != "senderA"@);
    assert(genesis_id() != "senderC"@);
    assert("senderA"@ != "senderC"@);
}

/// Every non-genesis account's sealed balance is non-negative. Sealed
/// balances are the authoritative ones the admission check consults.
pub open spec fn non_negative_sealed(l: Blockchain) -> bool {
    forall|a: Seq<char>| a != genesis_id() ==> spec_balance(l.sealed_txs(), a) >= 0
}

/// Law: a freshly constructed ledger starts with every non-genesis sealed
/// balance non-negative.
pub proof fn lemma_genesis_non_negative(l: Blockchain)
    requires
        is_genesis_state(l),
    ensures
        non_negative_sealed(l),
{
    lemma_genesis_balances(l);
}

/// Law: admission never changes sealed balances, so any sequence of
/// (successful or rejected) `new_transaction` and `create_coin` calls keeps
/// every non-genesis sealed balance non-negative: both leave the chain as it
/// was, as their contracts state.
pub proof fn lemma_admission_preserves_non_negative(pre: Blockchain, post: Blockchain)
    requires
        post.chain@ == pre.chain@,
        non_negative_sealed(pre),
    ensures
        non_negative_sealed(post),
{
    assert forall|a: Seq<char>| a != genesis_id() implies spec_balance(
        post.sealed_txs(),
        a,
    ) >= 0 by {
        assert(post.sealed_txs() == pre.sealed_txs());
        assert(spec_balance(pre.sealed_txs(), a) >= 0);
    }
}

/// Law: the proof search is deterministic. Any two results that satisfy the
/// search's contract against the same previous proof — accepted, and least
/// among accepted candidates — are the same value.
pub proof fn lemma_search_deterministic(last_proof: u64, p1: u64, p2: u64)
    requires
        spec_valid_proof(last_proof, p1),
        forall|q: u64| q < p1 ==> !spec_valid_proof(last_proof, q),
        spec_valid_proof(last_proof, p2),
        forall|q: u64| q < p2 ==> !spec_valid_proof(last_proof, q),
    ensures
        p1 == p2,
{
    if p1 < p2 {
        assert(!spec_valid_proof(last_proof, p1));
    }
    if p2 < p1 {
        assert(!spec_valid_proof(last_proof, p2));
    }
}

/// The number of times `a` occurs among the listed account names.
pub open spec fn count_of(accounts: Seq<Seq<char>>, a: Seq<char>) -> int
    decreases accounts.len(),
{
    if accounts.len() == 0 {
        0
    } else {
        count_of(accounts.drop_last(), a) + if accounts.last() == a {
            1int
        } else {
            0int
        }
    }
}

/// The sum of the listed accounts' balances after folding `txs`.
pub open spec fn sum_balances(accounts: Seq<Seq<char>>, txs: Seq<Transaction>) -> int
    decreases accounts.len(),
{
    if accounts.len() == 0 {
        0
    } else {
        sum_balances(accounts.drop_last(), txs) + spec_balance(txs, accounts.last())
    }
}

/// The sum of the listed accounts' single-transaction deltas.
pub open spec fn sum_delta(accounts: Seq<Seq<char>>, t: Transaction) -> int
    decreases accounts.len(),
{
    if accounts.len() == 0 {
        0
    } else {
        sum_delta(accounts.drop_last(), t) + tx_delta(t, accounts.last())
    }
}

proof fn lemma_count_unique(accounts: Seq<Seq<char>>, a: Seq<char>)
    requires
        forall|p: int, q: int|
            0 <= p < q < accounts.len() ==> (#[trigger] accounts[p]) != (#[trigger] accounts[q]),
        accounts.contains(a),
    ensures
        count_of(accounts, a) == 1,
    decreases accounts.len(),
{
    if accounts.last() == a {
        assert(!accounts.drop_last().contains(a)) by {
            if accounts.drop_last().contains(a) {
                let p = choose|p: int|
                    0 <= p < accounts.drop_last().len() && accounts.drop_last()[p] == a;
                assert(accounts[p] == accounts[accounts.len() - 1]);
            }
        }
        lemma_count_absent(accounts.drop_last(), a);
    } else {
        assert(accounts.drop_last().contains(a)) by {
            let p = choose|p: int| 0 <= p < accounts.len() && accounts[p] == a;
            assert(accounts.drop_last()[p] == a);
        }
        lemma_count_unique(accounts.drop_last(), a);
    }
}

proof fn lemma_count_absent(accounts: Seq<Seq<char>>, a: Seq<char>)
    requires
        !accounts.contains(a),
    ensures
        count_of(accounts, a) == 0,
    decreases accounts.len(),
{
    if accounts.len() > 0 {
        assert(!accounts.drop_last().contains(a)) by {
            if accounts.drop_last().contains(a) {
                let p = choose|p: int|
                    0 <= p < accounts.drop_last().len() && accounts.drop_last()[p] == a;
                assert(accounts[p] == a);
            }
        }
        lemma_count_absent(accounts.drop_last(), a);
    }
}

/// One transaction's deltas over distinct listed accounts cancel: `amount`
/// arrives at the recipient, `amount` leaves the sender.
proof fn lemma_sum_delta_counts(accounts: Seq<Seq<char>>, t: Transaction)
    ensures
        sum_delta(accounts, t) == t.amount * count_of(accounts, t.recipient@) - t.amount
            * count_of(accounts, t.sender@),
    decreases accounts.len(),
{
    if accounts.len() > 0 {
        lemma_sum_delta_counts(accounts.drop_last(), t);
        let cr = count_of(accounts.drop_last(), t.recipient@);
        let cs = count_of(accounts.drop_last(), t.sender@);
        assert(t.amount * (cr + 1) == t.amount * cr + t.amount) by (nonlinear_arith);
        assert(t.amount * (cs + 1) == t.amount * cs + t.amount) by (nonlinear_arith);
    }
}

proof fn lemma_sum_balances_empty(accounts: Seq<Seq<char>>)
    ensures
        sum_balances(accounts, Seq::<Transaction>::empty()) == 0,
    decreases accounts.len(),
{
    if accounts.len() > 0 {
        lemma_sum_balances_empty(accounts.drop_last());
    }
}

proof fn lemma_sum_balances_step(accounts: Seq<Seq<char>>, ts: Seq<Transaction>, t: Transaction)
    ensures
        sum_balances(accounts, ts.push(t)) == sum_balances(accounts, ts) + sum_delta(
            accounts,
            t,
        ),
    decreases accounts.len(),
{
    assert(ts.push(t).drop_last() =~= ts);
    if accounts.len() > 0 {
        lemma_sum_balances_step(accounts.drop_last(), ts, t);
    }
}

/// Law: value is conserved. Over any duplicate-free list of account names
/// that covers every party of `txs` — such as one block's transactions, or
/// the whole chain's — the balances resulting from the fold sum to zero:
/// what every transaction credits its recipient it debits its sender.
pub proof fn lemma_conservation(accounts: Seq<Seq<char>>, txs: Seq<Transaction>)
    requires
        forall|p: int, q: int|
            0 <= p < q < accounts.len() ==> (#[trigger] accounts[p]) != (#[trigger] accounts[q]),
        forall|k: int|
            0 <= k < txs.len() ==> accounts.contains((#[trigger] txs[k]).sender@)
                && accounts.contains(txs[k].recipient@),
    ensures
        sum_balances(accounts, txs) == 0,
    decreases txs.len(),
{
    if txs.len() == 0 {
        assert(txs =~= Seq::<Transaction>::empty());
        lemma_sum_balances_empty(accounts);
    } else {
        let ts = txs.drop_last();
        let t = txs.last();
        assert(txs =~= ts.push(t));
        assert(forall|k: int|
            0 <= k < ts.len() ==> accounts.contains((#[trigger] ts[k]).sender@)
                && accounts.contains(ts[k].recipient@));
        lemma_conservation(accounts, ts);
        lemma_sum_balances_step(accounts, ts, t);
        lemma_sum_delta_counts(accounts, t);
        lemma_count_unique(accounts, t.sender@);
        lemma_count_unique(accounts, t.recipient@);
    }
}

/// The sum of the balance values in a listing as `balances` returns it.
pub open spec fn sum_listing(listing: Seq<(String, i128)>) -> int
    decreases listing.len(),
{
    if listing.len() == 0 {
        0
    } else {
        sum_listing(listing.drop_last()) + listing.last().1
    }
}

proof fn lemma_listing_matches(l: Blockchain, listing: Seq<(String, i128)>)
    requires
        forall|p: int|
            0 <= p < listing.len() ==> (#[trigger] listing[p]).1 as int == l.spec_balance_of(
                listing[p].0@,
            ),
    ensures
        sum_listing(listing) == sum_balances(
            listing.map_values(|pr: (String, i128)| pr.0@),
            l.sealed_txs(),
        ),
    decreases listing.len(),
{
    let accounts = listing.map_values(|pr: (String, i128)| pr.0@);
    if listing.len() > 0 {
        lemma_listing_matches(l, listing.drop_last());
        assert(listing.drop_last().map_values(|pr: (String, i128)| pr.0@)
            =~= accounts.drop_last());
        assert(accounts.last() == listing.last().0@);
    }
}

/// Law: the balance listing of any well-formed ledger sums to zero. The
/// preconditions are exactly what `balances` ensures of its result: names
/// are duplicate-free, each value is the account's sealed balance, and every
/// account the chain mentions is listed.
pub proof fn lemma_balances_sum_zero(l: Blockchain, listing: Seq<(String, i128)>)
    requires
        forall|p: int, q: int|
            0 <= p < q < listing.len() ==> (#[trigger] listing[p]).0@ != (
            #[trigger] listing[q]).0@,
        forall|p: int|
            0 <= p < listing.len() ==> (#[trigger] listing[p]).1 as int == l.spec_balance_of(
                listing[p].0@,
            ),
        forall|a: Seq<char>|
            #[trigger] account_appears(l.sealed_txs(), a) ==> exists|p: int|
                0 <= p < listing.len() && (#[trigger] listing[p]).0@ == a,
    ensures
        sum_listing(listing) == 0,
{
    let accounts = listing.map_values(|pr: (String, i128)| pr.0@);
    let txs = l.sealed_txs();
    assert forall|k: int| 0 <= k < txs.len() implies accounts.contains(
        (#[trigger] txs[k]).sender@,
    ) && accounts.contains(txs[k].recipient@) by {
        assert(account_appears(txs, txs[k].sender@));
        assert(account_appears(txs, txs[k].recipient@));
        let p = choose|p: int| 0 <= p < listing.len() && (#[trigger] listing[p]).0@
            == txs[k].sender@;
        assert(accounts[p] == txs[k].sender@);
        let q = choose|q: int| 0 <= q < listing.len() && (#[trigger] listing[q]).0@
            == txs[k].recipient@;
        assert(accounts[q] == txs[k].recipient@);
    }
    lemma_conservation(accounts, txs);
    lemma_listing_matches(l, listing);
}

} // verus!
