//! Token contracts: their metadata as set by calls or read by RPC, and the contracts that
//! had transfers in a block.
use crate::balances::{block_items, kept_transfers};
use crate::bignum::{eq, from_u64};
use crate::distinct::{distinct_bytes, distinct_of};
use crate::eth::{bytes_list_view, copy_bytes, trxs_view, Block, Call, CallView, TransactionTrace, TransactionTraceView};
use crate::maps::{items_view, TransferItemView};
use crate::metadata::opt_text;
use crate::stores::{encode_keys, hex_keys, keys_readable, selected_addresses, BigIntDelta};
use vstd::prelude::*;

verus! {

/// Name, symbol and decimals that a call sets, each when it sets it.
#[derive(Clone, Debug)]
pub struct SetNameSymbol {
    pub name: Option<String>,
    pub symbol: Option<String>,
    pub decimals: Option<i32>,
}

/// Contents of a metadata setting: name, symbol, decimals.
pub open spec fn set_view(s: SetNameSymbol) -> (Option<Seq<char>>, Option<Seq<char>>, Option<i32>) {
    (opt_text(s.name), opt_text(s.symbol), s.decimals)
}

/// The metadata a call sets, from what it decodes to: name and symbol together first,
/// else the name alone, else the symbol alone; never decimals.
pub open spec fn metadata_of(
    name_symbol: Option<(Seq<char>, Seq<char>)>,
    name: Option<Seq<char>>,
    symbol: Option<Seq<char>>,
) -> Option<(Option<Seq<char>>, Option<Seq<char>>, Option<i32>)> {
    match name_symbol {
        Some((n, s)) => Some((Some(n), Some(s), None)),
        None => match name {
            Some(n) => Some((Some(n), None, None)),
            None => match symbol {
                Some(s) => Some((None, Some(s), None)),
                None => None,
            },
        },
    }
}

/// Contents of an optional pair of texts.
pub open spec fn opt_pair_text(v: Option<(String, String)>) -> Option<(Seq<char>, Seq<char>)> {
    match v {
        Some((a, b)) => Some((a@, b@)),
        None => None,
    }
}

/// The metadata that a call sets, given what its input decodes to as a name-and-symbol
/// setter, as a name setter and as a symbol setter (`None` where it is not one).
pub fn get_metadata(
    name_symbol: Option<(String, String)>,
    name: Option<String>,
    symbol: Option<String>,
) -> (r: Option<SetNameSymbol>)
    ensures
        match (r, metadata_of(opt_pair_text(name_symbol), opt_text(name), opt_text(symbol))) {
            (Some(s), Some(v)) => set_view(s) == v,
            (None, None) => true,
            _ => false,
        },
{
    if let Some((n, s)) = name_symbol {
        return Some(SetNameSymbol { name: Some(n), symbol: Some(s), decimals: None });
    }
    if let Some(n) = name {
        return Some(SetNameSymbol { name: Some(n), symbol: None, decimals: None });
    }
    if let Some(s) = symbol {
        return Some(SetNameSymbol { name: None, symbol: Some(s), decimals: None });
    }
    None
}

/// A change of a token contract's metadata.
#[derive(Clone, Debug)]
pub struct ContractChange {
    // -- transaction --
    pub transaction_id: Option<Vec<u8>>,
    // -- call --
    pub caller: Option<Vec<u8>>,
    // -- ordering --
    pub ordinal: Option<u64>,
    // -- contract --
    pub address: Vec<u8>,
    pub name: Option<String>,
    pub symbol: Option<String>,
    pub decimals: Option<i32>,
}

/// The change that a call of a transaction makes: the transaction hash, the caller, the
/// call's first ordinal, the contract called and what the call sets.
pub open spec fn is_call_change(c: ContractChange, trx: TransactionTraceView, call: CallView, set: SetNameSymbol) -> bool {
    &&& c.transaction_id matches Some(t) && t@ == trx.hash
    &&& c.caller matches Some(k) && k@ == call.caller
    &&& c.ordinal == Some(call.begin_ordinal)
    &&& c.address@ == call.address
    &&& opt_text(c.name) == opt_text(set.name)
    &&& opt_text(c.symbol) == opt_text(set.symbol)
    &&& c.decimals == set.decimals
}

/// The contract change of a call that sets metadata.
pub fn to_contract_change(trx: &TransactionTrace, call: &Call, set: SetNameSymbol) -> (r: ContractChange)
    ensures
        is_call_change(r, trx@, call@, set),
{
    ContractChange {
        transaction_id: Some(copy_bytes(&trx.hash)),
        caller: Some(copy_bytes(&call.caller)),
        ordinal: Some(call.begin_ordinal),
        address: copy_bytes(&call.address),
        name: set.name,
        symbol: set.symbol,
        decimals: set.decimals,
    }
}

/// Whether a counter became one in the block: the contract's first transfer.
pub open spec fn became_one(d: BigIntDelta) -> bool {
    d.new_value@ == 1
}

/// The contracts to read by RPC: those whose transfer counter became one in the block, in
/// the order of the deltas; a key that does not decode is skipped.
pub fn contracts_to_read(store_erc20_transfers: &Vec<BigIntDelta>) -> (r: Vec<Vec<u8>>)
    requires
        keys_readable(store_erc20_transfers@),
    ensures
        bytes_list_view(r@) == selected_addresses(store_erc20_transfers@, |d: BigIntDelta| became_one(d)),
{
    let ghost deltas = store_erc20_transfers@;
    let ghost keep = |d: BigIntDelta| became_one(d);
    let one = from_u64(1);
    let mut out: Vec<Vec<u8>> = Vec::new();
    let mut i: usize = 0;
    while i < store_erc20_transfers.len()
        invariant
            deltas == store_erc20_transfers@,
            keep == (|d: BigIntDelta| became_one(d)),
            keys_readable(deltas),
            one@ == 1,
            i <= deltas.len(),
            bytes_list_view(out@) == selected_addresses(deltas.take(i as int), keep),
        decreases deltas.len() - i,
    {
        let d = &store_erc20_transfers[i];
        proof {
            assert(deltas.take(i + 1).drop_last() =~= deltas.take(i as int));
            assert(deltas.take(i + 1).last() == *d);
            assert(crate::hexcode::prefix_readable(crate::stores::key_bytes(deltas[i as int])));
        }
        let ghost before = bytes_list_view(out@);
        if eq(&d.new_value, &one) {
            match crate::hexcode::decode_prefixed(d.key.as_str().as_bytes()) {
                Ok(address) => {
                    let ghost a = address@;
                    out.push(address);
                    assert(bytes_list_view(out@) =~= before.push(a));
                },
                Err(_) => {},
            }
        }
        i += 1;
    }
    assert(deltas.take(deltas.len() as int) =~= deltas);
    out
}

/// The change recorded for a contract read by RPC: none without decimals (the token must
/// have them); otherwise its decimals, the string name or else the `bytes32` one, and the
/// same for the symbol; no transaction, caller or ordinal.
pub open spec fn is_rpc_change(
    r: Option<ContractChange>,
    address: Seq<u8>,
    decimals: Option<i32>,
    name: Option<Seq<char>>,
    name_bytes32: Option<Seq<char>>,
    symbol: Option<Seq<char>>,
    symbol_bytes32: Option<Seq<char>>,
) -> bool {
    match r {
        None => decimals is None,
        Some(c) => {
            &&& decimals is Some
            &&& c.transaction_id is None
            &&& c.caller is None
            &&& c.ordinal is None
            &&& c.address@ == address
            &&& c.decimals == decimals
            &&& opt_text(c.name) == (if name is Some { name } else { name_bytes32 })
            &&& opt_text(c.symbol) == (if symbol is Some { symbol } else { symbol_bytes32 })
        },
    }
}

/// The change of a contract from what its RPC calls answered.
pub fn rpc_contract_change(
    address: Vec<u8>,
    decimals: Option<i32>,
    name: Option<String>,
    name_bytes32: Option<String>,
    symbol: Option<String>,
    symbol_bytes32: Option<String>,
) -> (r: Option<ContractChange>)
    ensures
        is_rpc_change(
            r,
            address@,
            decimals,
            opt_text(name),
            opt_text(name_bytes32),
            opt_text(symbol),
            opt_text(symbol_bytes32),
        ),
{
    if decimals.is_none() {
        return None;
    }
    let name = match name {
        Some(n) => Some(n),
        None => name_bytes32,
    };
    let symbol = match symbol {
        Some(s) => Some(s),
        None => symbol_bytes32,
    };
    Some(ContractChange { transaction_id: None, caller: None, ordinal: None, address, name, symbol, decimals })
}

/// The contracts of the logs of a list of kept transfers.
pub open spec fn item_contracts(items: Seq<TransferItemView>) -> Seq<Seq<u8>> {
    items.map_values(|x: TransferItemView| x.2.address)
}

/// The keys of the token contracts with a kept transfer in the block (fishing transfers,
/// zero values and reverted calls left out), each once, as hexadecimal text.
pub fn store_erc20_transfers(block: &Block) -> (r: Vec<String>)
    requires
        block.transaction_traces.len() <= u32::MAX,
    ensures
        r@.map_values(|k: String| k@) == hex_keys(
            distinct_of(item_contracts(block_items(trxs_view(block.transaction_traces@)))),
        ),
{
    let items = kept_transfers(block);
    let ghost all = items_view(items@);
    let mut addresses: Vec<Vec<u8>> = Vec::new();
    let mut i: usize = 0;
    while i < items.len()
        invariant
            all == items_view(items@),
            i <= items.len(),
            bytes_list_view(addresses@) == item_contracts(all.take(i as int)),
        decreases items.len() - i,
    {
        let ghost before = bytes_list_view(addresses@);
        addresses.push(copy_bytes(&items[i].2.address));
        proof {
            assert(all[i as int].2.address == items@[i as int].2.address@);
            assert(bytes_list_view(addresses@) =~= before.push(all[i as int].2.address));
            assert(item_contracts(all.take(i + 1)) =~= item_contracts(all.take(i as int)).push(all[i as int].2.address));
        }
        i += 1;
    }
    proof {
        assert(all.take(items.len() as int) =~= all);
    }
    let unique = distinct_bytes(&addresses);
    encode_keys(&unique)
}

} // verus!
