//! Token balances and transfers of EVM blocks: what Substreams modules compute from a
//! block, with the contracts that state it.
use vstd::prelude::*;

pub mod abi;
pub mod algorithms;
pub mod algorithms_fishing;
pub mod balances;
pub mod bignum;
pub mod contracts;
pub mod distinct;
pub mod erc721;
pub mod eth;
pub mod hexcode;
pub mod keccak_map;
pub mod logs;
pub mod maps;
pub mod metadata;
pub mod native;
pub mod native_balances;
pub mod native_contracts;
pub mod native_events;
pub mod pb;
pub mod rpc_balances;
pub mod sinks;
pub mod stats;
pub mod stores;
pub mod subgraph;
pub mod supply;
pub mod text;
pub mod utils;

verus! {

} // verus!
