//! Construction and posting of shielded transactions.
//!
//! A transaction is assembled from proved spends and proved receipts, checked
//! against the value balance, and posted as an immutable record that can be
//! inspected, encoded and decoded. Proving, signing and cryptographic
//! verification are done by the caller: every operation here takes what the
//! prover or the signer returned and decides what becomes of the transaction.

pub mod errors;
pub mod records;
pub mod posted;
pub mod balance;
pub mod transaction;
pub mod codec;
pub mod simple;
pub mod laws;
