//! Algorithm #2 in its lookup-only form: every storage change of the child calls whose
//! owner is the transfer's sender or receiver.
use crate::abi::Transfer;
use crate::algorithms::algorithm_call::found_view;
use crate::algorithms::algorithm_child_calls::{all_storage_changes, lemma_owned_changes_exact, owned_changes};
use crate::eth::{calls_view, storage_changes_view, Call, StorageChange, TransactionTrace};
use crate::keccak_map::StorageKeyToAddressMap;
use crate::pb::erc20_types::BalanceChangeType;
use crate::utils::{child_calls_of, get_owner_from_keccak_address_map, is_erc20_valid_address};
use vstd::prelude::*;

verus! {

/// The storage changes of the calls whose parent is `original`, call after call.
pub fn get_all_child_call_storage_changes(original: &Call, trx: &TransactionTrace) -> (r: Vec<StorageChange>)
    ensures
        storage_changes_view(r@) == all_storage_changes(child_calls_of(trx@.calls, original.index)),
{
    let ghost cv = trx@.calls;
    let mut out: Vec<StorageChange> = Vec::new();
    let mut i: usize = 0;
    while i < trx.calls.len()
        invariant
            cv == calls_view(trx.calls@),
            i <= trx.calls.len(),
            storage_changes_view(out@) == all_storage_changes(child_calls_of(cv.subrange(0, i as int), original.index)),
        decreases trx.calls.len() - i,
    {
        proof {
            assert(cv.subrange(0, i + 1).drop_last() =~= cv.subrange(0, i as int));
        }
        let call = &trx.calls[i];
        if call.parent_index == original.index {
            let ghost before = storage_changes_view(out@);
            let mut j: usize = 0;
            while j < call.storage_changes.len()
                invariant
                    j <= call.storage_changes.len(),
                    storage_changes_view(out@) == before + storage_changes_view(call.storage_changes@).subrange(0, j as int),
                decreases call.storage_changes.len() - j,
            {
                let ghost prev = out@;
                let d = call.storage_changes[j].duplicate();
                out.push(d);
                proof {
                    assert(storage_changes_view(out@) =~= storage_changes_view(prev).push(call.storage_changes@[j as int]@));
                    assert(storage_changes_view(call.storage_changes@).subrange(0, j + 1) =~= storage_changes_view(call.storage_changes@).subrange(0, j as int).push(call.storage_changes@[j as int]@));
                    assert(storage_changes_view(out@) =~= before + storage_changes_view(call.storage_changes@).subrange(0, j + 1));
                }
                j += 1;
            }
            proof {
                let prev = child_calls_of(cv.subrange(0, i as int), original.index);
                assert(storage_changes_view(call.storage_changes@).subrange(0, call.storage_changes.len() as int)
                    =~= storage_changes_view(call.storage_changes@));
                assert(child_calls_of(cv.subrange(0, i + 1), original.index) == prev.push(cv[i as int]));
                assert(prev.push(cv[i as int]).drop_last() =~= prev);
            }
        }
        i += 1;
    }
    assert(cv.subrange(0, trx.calls.len() as int) =~= cv);
    out
}

/// Algorithm #2 (case where storage changes are not in the same call as the transfer
/// event): every storage change of the child calls whose owner is the sender or receiver.
pub fn find_erc20_balance_changes_algorithm2(
    trx: &TransactionTrace,
    original: &Call,
    transfer: &Transfer,
    keccak_address_map: &StorageKeyToAddressMap,
) -> (r: Vec<(Vec<u8>, StorageChange, BalanceChangeType)>)
    requires
        keccak_address_map.wf(),
    ensures
        found_view(r@) == owned_changes(
            all_storage_changes(child_calls_of(trx@.calls, original.index)),
            transfer@,
            keccak_address_map@,
        ),
        forall|k: int|
            0 <= k < all_storage_changes(child_calls_of(trx@.calls, original.index)).len()
                && keccak_address_map@.contains_key(
                #[trigger] all_storage_changes(child_calls_of(trx@.calls, original.index))[k].key,
            ) && (keccak_address_map@[all_storage_changes(child_calls_of(trx@.calls, original.index))[k].key]
                == transfer@.from || keccak_address_map@[all_storage_changes(
                child_calls_of(trx@.calls, original.index),
            )[k].key] == transfer@.to) ==> found_view(r@).contains(
                (
                    keccak_address_map@[all_storage_changes(child_calls_of(trx@.calls, original.index))[k].key],
                    all_storage_changes(child_calls_of(trx@.calls, original.index))[k],
                    BalanceChangeType::BalanceChangeType2,
                ),
            ),
{
    let storage_changes = get_all_child_call_storage_changes(original, trx);
    let ghost scs = storage_changes_view(storage_changes@);
    let mut out: Vec<(Vec<u8>, StorageChange, BalanceChangeType)> = Vec::new();
    let mut i: usize = 0;
    while i < storage_changes.len()
        invariant
            keccak_address_map.wf(),
            scs == storage_changes_view(storage_changes@),
            i <= storage_changes.len(),
            found_view(out@) == owned_changes(scs.subrange(0, i as int), transfer@, keccak_address_map@),
        decreases storage_changes.len() - i,
    {
        let storage_change = &storage_changes[i];
        proof {
            assert(scs.subrange(0, i + 1).drop_last() =~= scs.subrange(0, i as int));
            assert(scs[i as int] == storage_change@);
        }
        match get_owner_from_keccak_address_map(keccak_address_map, storage_change) {
            Some(owner) => {
                if is_erc20_valid_address(&owner, transfer) {
                    let ghost before = out@;
                    let ghost o = owner@;
                    out.push((owner, storage_change.duplicate(), BalanceChangeType::BalanceChangeType2));
                    proof {
                        assert(found_view(out@) =~= found_view(before).push(
                            (o, scs[i as int], BalanceChangeType::BalanceChangeType2),
                        ));
                    }
                }
            },
            None => {},
        }
        i += 1;
    }
    assert(scs.subrange(0, storage_changes.len() as int) =~= scs);
    proof {
        lemma_owned_changes_exact(scs, transfer@, keccak_address_map@);
    }
    out
}

} // verus!
