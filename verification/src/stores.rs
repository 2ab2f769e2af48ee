//! Token contracts flagged in a store of counters: the store is keyed by the contract's
//! hexadecimal address and counts its transfers.
use crate::bignum::BigNum;
use crate::distinct::{distinct_bytes, distinct_of};
use crate::eth::bytes_list_view;
use crate::hexcode::{decode_prefixed, encode, hex_bytes, hex_text, is_hex_text, prefix_readable, strip_hex_prefix};
use vstd::prelude::*;
use vstd::utf8::encode_utf8;

verus! {

/// A change of a store counter: its key and the values before and after the block.
#[derive(Clone, Debug)]
pub struct BigIntDelta {
    pub key: String,
    pub old_value: BigNum,
    pub new_value: BigNum,
}

/// The contract whose first transfer the block holds.
#[derive(Clone, Debug)]
pub struct FirstTransferByContract {
    pub contract: Vec<u8>,
}

/// The contracts whose first transfer the block holds.
#[derive(Clone, Debug)]
pub struct Events {
    pub first_transfer_by_contract: Vec<FirstTransferByContract>,
}

/// The bytes of a key's text.
pub open spec fn key_bytes(d: BigIntDelta) -> Seq<u8> {
    encode_utf8(d.key@)
}

/// The address a key decodes to, if it is hexadecimal text (with or without `0x`).
pub open spec fn key_address(d: BigIntDelta) -> Option<Seq<u8>> {
    if is_hex_text(strip_hex_prefix(key_bytes(d))) {
        Some(hex_bytes(strip_hex_prefix(key_bytes(d))))
    } else {
        None
    }
}

/// The addresses of the counters that `keep` selects and whose key decodes, in order.
pub open spec fn selected_addresses(deltas: Seq<BigIntDelta>, keep: spec_fn(BigIntDelta) -> bool) -> Seq<Seq<u8>>
    decreases deltas.len(),
{
    if deltas.len() == 0 {
        Seq::empty()
    } else {
        let rest = selected_addresses(deltas.drop_last(), keep);
        let d = deltas.last();
        if keep(d) && key_address(d) is Some {
            rest.push(key_address(d)->0)
        } else {
            rest
        }
    }
}

/// Whether a counter was zero before the block: the contract's first transfer.
pub open spec fn was_zero(d: BigIntDelta) -> bool {
    d.old_value@ == 0
}

/// No key is empty or exactly `0`, the texts that decoding cannot read.
pub open spec fn keys_readable(deltas: Seq<BigIntDelta>) -> bool {
    forall|k: int| 0 <= k < deltas.len() ==> prefix_readable(key_bytes(#[trigger] deltas[k]))
}

/// Decodes the key of a counter.
fn decode_key(d: &BigIntDelta) -> (r: Option<Vec<u8>>)
    requires
        prefix_readable(key_bytes(*d)),
    ensures
        match (r, key_address(*d)) {
            (Some(v), Some(a)) => v@ == a,
            (None, None) => true,
            _ => false,
        },
{
    match decode_prefixed(d.key.as_str().as_bytes()) {
        Ok(v) => Some(v),
        Err(_) => None,
    }
}

/// The contracts whose counter was zero before the block, in the order of the deltas;
/// a key that does not decode is skipped.
pub fn map_events(store_erc20_transfers: &Vec<BigIntDelta>) -> (r: Events)
    requires
        keys_readable(store_erc20_transfers@),
    ensures
        r.first_transfer_by_contract@.map_values(|f: FirstTransferByContract| f.contract@)
            == selected_addresses(store_erc20_transfers@, |d: BigIntDelta| was_zero(d)),
{
    let ghost deltas = store_erc20_transfers@;
    let ghost keep = |d: BigIntDelta| was_zero(d);
    let mut out: Vec<FirstTransferByContract> = Vec::new();
    let mut i: usize = 0;
    while i < store_erc20_transfers.len()
        invariant
            deltas == store_erc20_transfers@,
            keep == (|d: BigIntDelta| was_zero(d)),
            keys_readable(deltas),
            i <= deltas.len(),
            out@.map_values(|f: FirstTransferByContract| f.contract@) == selected_addresses(deltas.take(i as int), keep),
        decreases deltas.len() - i,
    {
        let d = &store_erc20_transfers[i];
        proof {
            assert(deltas.take(i + 1).drop_last() =~= deltas.take(i as int));
            assert(deltas.take(i + 1).last() == *d);
            assert(prefix_readable(key_bytes(deltas[i as int])));
        }
        let ghost before = out@.map_values(|f: FirstTransferByContract| f.contract@);
        if crate::bignum::eq(&d.old_value, &BigNum::zero()) {
            if let Some(contract) = decode_key(d) {
                let ghost c = contract@;
                out.push(FirstTransferByContract { contract });
                assert(out@.map_values(|f: FirstTransferByContract| f.contract@) =~= before.push(c));
            }
        }
        i += 1;
    }
    assert(deltas.take(deltas.len() as int) =~= deltas);
    Events { first_transfer_by_contract: out }
}

/// Hexadecimal text of each byte string.
pub open spec fn hex_keys(s: Seq<Seq<u8>>) -> Seq<Seq<char>> {
    s.map_values(|b: Seq<u8>| hex_text(b))
}

/// The store keys of a list of addresses: the hexadecimal text of each.
pub fn encode_keys(addresses: &Vec<Vec<u8>>) -> (r: Vec<String>)
    ensures
        r@.map_values(|k: String| k@) == hex_keys(bytes_list_view(addresses@)),
{
    let mut out: Vec<String> = Vec::new();
    let mut i: usize = 0;
    while i < addresses.len()
        invariant
            i <= addresses.len(),
            out@.map_values(|k: String| k@) == hex_keys(bytes_list_view(addresses@)).take(i as int),
        decreases addresses.len() - i,
    {
        let ghost before = out@.map_values(|k: String| k@);
        proof {
            assert(bytes_list_view(addresses@)[i as int] == addresses@[i as int]@);
            assert(hex_keys(bytes_list_view(addresses@))[i as int] == hex_text(addresses@[i as int]@));
        }
        let e = encode(addresses[i].as_slice());
        let ghost ev = e@;
        out.push(e);
        assert(out@.map_values(|k: String| k@) =~= before.push(ev));
        assert(hex_keys(bytes_list_view(addresses@)).take(i + 1) =~= hex_keys(bytes_list_view(addresses@)).take(i as int).push(ev));
        i += 1;
    }
    assert(hex_keys(bytes_list_view(addresses@)).take(addresses.len() as int) =~= hex_keys(bytes_list_view(addresses@)));
    out
}

/// The keys of the token contracts to flag in the store: the contracts of the
/// transfers, each once, as hexadecimal text (each is then added one to).
pub fn store_erc20_transfers(contracts: &Vec<Vec<u8>>) -> (r: Vec<String>)
    ensures
        r@.map_values(|k: String| k@) == hex_keys(distinct_of(bytes_list_view(contracts@))),
{
    let unique = distinct_bytes(contracts);
    encode_keys(&unique)
}

} // verus!
