//! What the owned storage changes of a set of calls took from and added to balances.
use crate::abi::Transfer;
use crate::algorithms::algorithm_child_calls::{all_storage_changes, collect_storage_changes, total_received, total_sent};
use crate::balances::get_keccak_address;
use crate::bignum::{difference, from_unsigned_bytes_be, lt, neg, sum, BigNum};
use crate::eth::{calls_view, storage_changes_view, Call};
use crate::keccak_map::StorageKeyToAddressMap;
use crate::utils::is_erc20_valid_address;
use vstd::prelude::*;

verus! {

/// The totals sent and received by the storage changes of the calls whose owner (looked
/// up by storage key) is the transfer's sender or receiver: a balance that went down adds
/// its decrease to what was sent, any other adds its increase to what was received
/// (values read as unsigned big-endian).
pub fn compute_total_sent_received(
    child_calls: &Vec<Call>,
    transfer: &Transfer,
    keccak_address_map: &StorageKeyToAddressMap,
) -> (r: (BigNum, BigNum))
    requires
        keccak_address_map.wf(),
    ensures
        r.0@ == total_sent(all_storage_changes(calls_view(child_calls@)), transfer@, keccak_address_map@),
        r.1@ == total_received(all_storage_changes(calls_view(child_calls@)), transfer@, keccak_address_map@),
{
    let storage_changes = collect_storage_changes(child_calls);
    let ghost scs = storage_changes_view(storage_changes@);
    let ghost map = keccak_address_map@;
    let mut total_sent_value = BigNum::zero();
    let mut total_received_value = BigNum::zero();
    let mut i: usize = 0;
    while i < storage_changes.len()
        invariant
            keccak_address_map.wf(),
            map == keccak_address_map@,
            scs == storage_changes_view(storage_changes@),
            i <= storage_changes.len(),
            total_sent_value@ == total_sent(scs.subrange(0, i as int), transfer@, map),
            total_received_value@ == total_received(scs.subrange(0, i as int), transfer@, map),
        decreases storage_changes.len() - i,
    {
        let storage_change = &storage_changes[i];
        proof {
            assert(scs.subrange(0, i + 1).drop_last() =~= scs.subrange(0, i as int));
            assert(scs[i as int] == storage_change@);
        }
        match get_keccak_address(keccak_address_map, storage_change) {
            Some(owner) => {
                if is_erc20_valid_address(owner, transfer) {
                    let old_balance = from_unsigned_bytes_be(storage_change.old_value.as_slice());
                    let new_balance = from_unsigned_bytes_be(storage_change.new_value.as_slice());
                    let balance_change = difference(&new_balance, &old_balance);
                    if lt(&balance_change, &BigNum::zero()) {
                        total_sent_value = sum(&total_sent_value, &neg(&balance_change));
                    } else {
                        total_received_value = sum(&total_received_value, &balance_change);
                    }
                }
            },
            None => {},
        }
        i += 1;
    }
    assert(scs.subrange(0, storage_changes.len() as int) =~= scs);
    (total_sent_value, total_received_value)
}

} // verus!
