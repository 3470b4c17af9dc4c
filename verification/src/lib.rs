//! Runt: the verified core of a verification runtime for Ethereum proofs.
use vstd::prelude::*;

pub mod abi;
pub mod composition;
pub mod consensus_verifier;
pub mod crypto;
pub mod demo;
pub mod curves;
pub mod encode;
pub mod fuel;
pub mod groth16_verifier;
pub mod hashing;
pub mod hello_verifier;
pub mod json;
pub mod host;
pub mod keyed;
pub mod listing;
pub mod laws;
pub mod proof_input;
pub mod registry;
pub mod rlp;
pub mod routing;
pub mod sandbox;
pub mod text;
pub mod state_verifier;
pub mod storage;
pub mod trie;
pub mod tx_verifier;
pub mod types;

pub use types::VerificationResult;

verus! {

} // verus!
