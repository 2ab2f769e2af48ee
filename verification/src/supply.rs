//! Total supplies of the token contracts that had transfers.
use crate::bignum::{int_text, to_decimal_string, BigNum};
use crate::distinct::{distinct_bytes, distinct_of};
use crate::eth::{bytes_list_view, copy_bytes};
use vstd::prelude::*;

verus! {

/// The total supply of a token contract.
#[derive(Clone, Debug)]
pub struct TotalSupplyByContract {
    pub contract: Vec<u8>,
    /// Decimal text of the supply.
    pub total_supply: String,
}

/// The contracts whose supply to read: those of the transfers, each once.
pub fn supply_contracts(transfer_contracts: &Vec<Vec<u8>>) -> (r: Vec<Vec<u8>>)
    ensures
        bytes_list_view(r@) == distinct_of(bytes_list_view(transfer_contracts@)),
{
    distinct_bytes(transfer_contracts)
}

/// One record per supply read, in order: the contract and the supply's decimal text.
pub fn total_supply_records(supplies: &Vec<(Vec<u8>, BigNum)>) -> (r: Vec<TotalSupplyByContract>)
    ensures
        r.len() == supplies.len(),
        forall|k: int| 0 <= k < r.len() ==> (#[trigger] r@[k]).contract@ == supplies@[k].0@
            && r@[k].total_supply@ == int_text(supplies@[k].1@),
{
    let mut out: Vec<TotalSupplyByContract> = Vec::new();
    let mut i: usize = 0;
    while i < supplies.len()
        invariant
            i <= supplies.len(),
            out.len() == i,
            forall|k: int| 0 <= k < i ==> (#[trigger] out@[k]).contract@ == supplies@[k].0@
                && out@[k].total_supply@ == int_text(supplies@[k].1@),
        decreases supplies.len() - i,
    {
        out.push(TotalSupplyByContract {
            contract: copy_bytes(&supplies[i].0),
            total_supply: to_decimal_string(&supplies[i].1),
        });
        i += 1;
    }
    out
}

} // verus!
