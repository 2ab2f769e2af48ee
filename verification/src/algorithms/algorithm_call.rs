//! Algorithm #1: the storage changes of the call that emitted the transfer.
use crate::abi::{Transfer, TransferView};
use crate::eth::{storage_changes_view, Call, StorageChange, StorageChangeView};
use crate::keccak_map::StorageKeyToAddressMap;
use crate::pb::erc20_types::BalanceChangeType;
use crate::utils::{
    get_owner_from_keccak_address_map, is_erc20_valid_address, is_erc20_valid_balance,
    valid_balance,
};
use vstd::prelude::*;

verus! {

/// Contents of a list of (owner, storage change, type) results.
pub open spec fn found_view(v: Seq<(Vec<u8>, StorageChange, BalanceChangeType)>) -> Seq<
    (Seq<u8>, StorageChangeView, BalanceChangeType),
> {
    v.map_values(|t: (Vec<u8>, StorageChange, BalanceChangeType)| (t.0@, t.1@, t.2))
}

/// The owner a storage change is found to belong to under algorithm #1: its balance moves
/// by the transfer's value (within one wei), the map knows its key, and the owner is the
/// sender or the receiver.
pub open spec fn algorithm1_owner(
    transfer: TransferView,
    map: Map<Seq<u8>, Seq<u8>>,
    sc: StorageChangeView,
) -> Option<Seq<u8>> {
    if valid_balance(transfer, sc) && map.contains_key(sc.key) && (map[sc.key] == transfer.from
        || map[sc.key] == transfer.to) {
        Some(map[sc.key])
    } else {
        None
    }
}

/// The storage changes that algorithm #1 keeps, in order, each with its owner.
pub open spec fn algorithm1(
    scs: Seq<StorageChangeView>,
    transfer: TransferView,
    map: Map<Seq<u8>, Seq<u8>>,
) -> Seq<(Seq<u8>, StorageChangeView, BalanceChangeType)>
    decreases scs.len(),
{
    if scs.len() == 0 {
        Seq::empty()
    } else {
        let rest = algorithm1(scs.drop_last(), transfer, map);
        match algorithm1_owner(transfer, map, scs.last()) {
            Some(owner) => rest.push((owner, scs.last(), BalanceChangeType::BalanceChangeType1)),
            None => rest,
        }
    }
}

/// Algorithm #1 (normal case): the storage changes of `call` that match the transfer.
pub fn find_erc20_balance_changes_algorithm1(
    call: &Call,
    transfer: &Transfer,
    keccak_address_map: &StorageKeyToAddressMap,
) -> (r: Vec<(Vec<u8>, StorageChange, BalanceChangeType)>)
    requires
        keccak_address_map.wf(),
    ensures
        found_view(r@) == algorithm1(call@.storage_changes, transfer@, keccak_address_map@),
{
    let ghost scs = call@.storage_changes;
    let mut out: Vec<(Vec<u8>, StorageChange, BalanceChangeType)> = Vec::new();
    let mut i: usize = 0;
    while i < call.storage_changes.len()
        invariant
            keccak_address_map.wf(),
            scs == storage_changes_view(call.storage_changes@),
            i <= call.storage_changes.len(),
            found_view(out@) == algorithm1(scs.subrange(0, i as int), transfer@, keccak_address_map@),
        decreases call.storage_changes.len() - i,
    {
        let storage_change = &call.storage_changes[i];
        proof {
            assert(scs.subrange(0, i + 1).drop_last() =~= scs.subrange(0, i as int));
            assert(scs[i as int] == storage_change@);
        }
        let ghost before = out@;
        if is_erc20_valid_balance(transfer, storage_change) {
            match get_owner_from_keccak_address_map(keccak_address_map, storage_change) {
                Some(owner) => {
                    if is_erc20_valid_address(&owner, transfer) {
                        let ghost o = owner@;
                        out.push((owner, storage_change.duplicate(), BalanceChangeType::BalanceChangeType1));
                        proof {
                            assert(found_view(out@) =~= found_view(before).push(
                                (o, scs[i as int], BalanceChangeType::BalanceChangeType1),
                            ));
                        }
                    }
                },
                None => {},
            }
        }
        i += 1;
    }
    assert(scs.subrange(0, call.storage_changes.len() as int) =~= scs);
    out
}

} // verus!
