//! Transfers without any storage change behind them ("fishing" transfers).
use crate::algorithms::algorithm2_child_calls::get_all_child_call_storage_changes;
use crate::algorithms::algorithm_child_calls::all_storage_changes;
use crate::eth::{Call, TransactionTrace};
use crate::utils::child_calls_of;
use vstd::prelude::*;

verus! {

/// Whether the transfer is a fishing transfer: neither its call nor any child call of that
/// call changed storage.
pub fn is_fishing_transfers(trx: &TransactionTrace, call: &Call) -> (r: bool)
    ensures
        r == (call.storage_changes.len() == 0 && all_storage_changes(child_calls_of(trx@.calls, call.index)).len() == 0),
{
    let storage_changes = get_all_child_call_storage_changes(call, trx);
    call.storage_changes.len() == 0 && storage_changes.len() == 0
}

} // verus!
