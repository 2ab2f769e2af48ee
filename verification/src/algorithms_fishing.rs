//! Transfers without any storage change or child call behind them.
use crate::eth::{Call, TransactionTrace};
use crate::utils::{child_calls_of, get_all_child_calls};
use vstd::prelude::*;

verus! {

/// Whether the call changed storage or made child calls; a transfer whose call did
/// neither is a fishing transfer, to be ignored.
pub fn ignore_fishing_transfers(trx: &TransactionTrace, call: &Call) -> (r: bool)
    ensures
        r == !(call.storage_changes.len() == 0 && child_calls_of(trx@.calls, call.index).len() == 0),
{
    let child_calls = get_all_child_calls(call, trx);
    if call.storage_changes.len() == 0 && child_calls.len() == 0 {
        return false;
    }
    true
}

} // verus!
