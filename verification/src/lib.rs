//! Core of a gasless stablecoin transfer relayer for EIP-3009 tokens.
//!
//! A sender hands the relayer an off-chain signed `transferWithAuthorization`
//! message; the relayer validates it, rate-limits the sender, encodes the
//! token-contract call, assembles and signs an EIP-1559 transaction, and
//! broadcasts it over JSON-RPC, narrating progress into a durable payment log.
//!
//! The byte-exact primitives (Keccak-256, RLP, ABI encoding, the typed
//! transaction envelope) and the decision logic of the pipeline live here,
//! each with a contract; the host environment drives the pipeline by
//! performing the network calls it requests.

pub mod abi;
pub mod bignum;
pub mod errors;
pub mod fees;
pub mod hexfmt;
pub mod keccak;
pub mod logbook;
pub mod network;
pub mod pipeline;
pub mod ratelimit;
pub mod rlp;
pub mod rpc;
pub mod signer;
pub mod state;
pub mod tx;

use vstd::prelude::*;

verus! {

} // verus!
