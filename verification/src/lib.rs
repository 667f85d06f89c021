//! Client-side SDK core for a hosted Lightning-network node: a local,
//! synchronized payment ledger with an incremental sync engine
//! (`payments_db`), credential handling (`credentials`), and the wallet
//! lifecycle with its provisioning state machine (`wallet`, `provision`).
//!
//! The remote node backend is an external collaborator: every network
//! exchange is driven by the embedding program, which fetches or sends on the
//! wire and hands the resulting plain values to the functions here.

pub mod credentials;
pub mod errors;
pub mod payment;
pub mod payments_db;
pub mod provision;
pub mod wallet;
