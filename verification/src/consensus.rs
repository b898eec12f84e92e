//! The proof-of-work gate: a cheap digest-and-modulus acceptance test and a
//! bounded search for the first accepted candidate.
use vstd::prelude::*;

use std::collections::hash_map::DefaultHasher;
use std::hash::{Hash, Hasher};
use crate::blockchain::{Block, Blockchain, LedgerError};
use crate::display::{spec_dec, u64_to_string};

verus! {

/// The digest a fresh `DefaultHasher` computes for one `u64`. A function of
/// the argument alone: `DefaultHasher::new` is documented to create every
/// instance with the same fixed keys.
pub uninterp spec fn digest_of(v: u64) -> u64;

/// Relies on std's `DefaultHasher`: hashing one `u64` with a freshly created
/// hasher yields a value determined by that `u64` alone.
#[verifier::external_body]
fn digest_u64(v: u64) -> (r: u64)
    ensures
        r == digest_of(v),
{
    let mut s = DefaultHasher::new();
    v.hash(&mut s);
    s.finish()
}

/// The divisor of the acceptance test: a candidate passes roughly once per
/// this many tries, so it is the chain's difficulty knob.
pub const PROOF_MODULUS: u64 = 23;

/// The defensive ceiling on the proof search: rather than loop forever on a
/// pathological digest, the search gives up past this many candidates.
pub const SEARCH_CEILING: u64 = 1000000;

/// The consensus predicate: a candidate is accepted against the previous
/// proof iff the digest of their (wrapping) sum is exactly divisible by the
/// modulus.
pub open spec fn spec_valid_proof(last_proof: u64, proof: u64) -> bool {
    digest_of(vstd::wrapping::u64_specs::wrapping_add(last_proof, proof)) % PROOF_MODULUS == 0
}

/// The digest string a block is linked by: the decimal rendering of the
/// digest of its creation instant. Content is deliberately not committed to;
/// see the note on `Block::timestamp`.
pub open spec fn spec_hash_of(b: Block) -> Seq<char> {
    spec_dec(digest_of(b.timestamp) as nat)
}

impl Blockchain {
    /// The digest string of one block, computed from its creation instant.
    pub(crate) fn hash(block: &Block) -> (s: String)
        ensures
            s@ == spec_hash_of(*block),
    {
        let digest = digest_u64(block.timestamp);
        u64_to_string(digest)
    }

    /// The acceptance test a candidate proof must pass before a block may be
    /// sealed on top of the block that holds `last_proof`.
    pub fn valid_proof(last_proof: u64, proof: u64) -> (r: bool)
        ensures
            r == spec_valid_proof(last_proof, proof),
    {
        let test_val = last_proof.wrapping_add(proof);
        let digest = digest_u64(test_val);
        digest % PROOF_MODULUS == 0
    }

    /// Search upward from zero for the first candidate the consensus
    /// predicate accepts against `last_proof`. Deterministic: the result is
    /// the least accepted candidate. Fails with `ProofNotFound` only if no
    /// candidate below the search ceiling is accepted.
    pub fn proof_of_work(last_proof: u64) -> (r: Result<u64, LedgerError>)
        ensures
            match r {
                Ok(p) => {
                    &&& p < SEARCH_CEILING
                    &&& spec_valid_proof(last_proof, p)
                    &&& forall|q: u64| q < p ==> !spec_valid_proof(last_proof, q)
                },
                Err(e) => {
                    &&& e == LedgerError::ProofNotFound
                    &&& forall|q: u64| q < SEARCH_CEILING ==> !spec_valid_proof(last_proof, q)
                },
            },
    {
        let mut proof: u64 = 0;
        while proof < SEARCH_CEILING
            invariant
                proof <= SEARCH_CEILING,
                forall|q: u64| q < proof ==> !spec_valid_proof(last_proof, q),
            decreases SEARCH_CEILING - proof,
        {
            if Blockchain::valid_proof(last_proof, proof) {
                return Ok(proof);
            }
            proof = proof + 1;
        }
        Err(LedgerError::ProofNotFound)
    }
}

} // verus!
