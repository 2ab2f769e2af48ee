# erc20_balances

Verified logic of Substreams modules for EVM token balances: ERC-20 transfers and the
balance changes found for them in storage changes, native (ETH) balance changes and
transfers, token metadata, contract creations, and the rows written to subgraph and
database sinks.

Layout:

- `src/` — the library, verified with Verus. `eth.rs` models the Firehose Ethereum block,
  `abi.rs` decodes ERC-20 `Transfer` logs, `maps.rs` and `algorithms/` find balance
  changes, `balances.rs` keeps the last change per contract and owner, `native*.rs`
  (native balance changes, transfers and contract creations), `erc721.rs` (mints joined
  with their contracts' answers), `metadata.rs`, `contracts.rs`, `stores.rs`, `supply.rs`, `rpc_balances.rs`,
  `stats.rs`, `sinks.rs` and `subgraph.rs` cover the other modules. Arbitrary-precision
  arithmetic (`bignum.rs`), hexadecimal text (`hexcode.rs`) and timestamp text go through
  `substreams`, `hex` and `prost-types` behind small trusted wrappers.
- `tests/` — tests of the library on concrete blocks and values.
- `app/` — Substreams handlers around the library: `modules.rs` holds those of the root
  module (`map_events`, `graph_out`, `db_out`, the statistics stores and maps) and the
  store of token contracts with transfers; `handlers.rs` those of the erc20-balances
  events, the native balance changes, the native contract creations, the first transfers
  by contract and the subgraph's `Balance` entities, with output messages of their own.
  Each converts the runtime's messages, checks what the library requires and calls it.
  Not driven from here:
  - the native-balances events, whose validity test, an input of
    `native_events::insert_events`, has no source in this project;
  - the modules that read chain state over RPC (erc20-rpc balances, erc20-metadata and
    erc20-contracts, supply, ERC-721 URIs), which need the `substreams-abis` call
    encoders. Their verified logic (`rpc_balances.rs`, `metadata.rs`, `contracts.rs`,
    `supply.rs`, `erc721.rs`) stands in the library.
