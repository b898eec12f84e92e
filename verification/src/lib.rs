//! An educational in-memory ledger modelling a minimal blockchain: an
//! append-only chain of blocks, each holding a batch of transactions, gated
//! by a toy proof-of-work puzzle.
//!
//! Amounts are unsigned integers (smallest currency unit); balances are
//! signed integers derived by folding every sealed transaction. The genesis
//! account may go negative (it mints value); every other account is kept at
//! a non-negative sealed balance by the admission check.
pub mod blockchain;
pub mod consensus;
pub mod display;
pub mod laws;
pub mod model;
