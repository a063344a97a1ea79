//! Ethereum compatibility layer for a host chain: block assembly, block-import
//! indexing and log filtering, with their contracts proved by Verus.
use vstd::prelude::*;

pub mod aux_schema;
pub mod codec;
pub mod consensus;
pub mod dynamic_fee;
pub mod ethereum;
pub mod evm;
pub mod filter;
pub mod hashing;
pub mod rpc_types;
pub mod types;

verus! {

} // verus!
