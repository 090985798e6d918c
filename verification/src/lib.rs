//! Decision logic of a harness that rehearses a runtime upgrade on a test
//! network: what to submit, in which order, with which amounts, and how the
//! balances before and after are compared.
//!
//! Nothing here talks to a node. A workflow either lays out a script, a
//! sequence of steps that a runner carries out one after the other, or,
//! where a step depends on what the chain answered before, it is a state
//! machine that is handed a reply and gives the next directive. Every
//! function is verified against its contract, but for four calls into
//! other crates whose contracts are taken on trust: the Blake2b hash, the
//! derivation of a public key from a secret URI, the hexadecimal writing
//! of bytes, and the drawing of a random number.

pub mod account;
pub mod address;
pub mod balances;
pub mod chance;
pub mod command;
pub mod council;
pub mod democracy;
pub mod error;
pub mod hashing;
pub mod orchestrator;
pub mod protocol;
pub mod script;
pub mod settings;
pub mod staking;
pub mod watermark;
