//! Algorithm #2: the storage changes of the child calls of the call that emitted the
//! transfer.
use crate::abi::{Transfer, TransferView};
use crate::algorithms::algorithm_call::found_view;
use crate::bignum::{abs_int, be_value, difference, eq, from_unsigned_bytes_be, lt, neg, sum, BigNum};
use crate::eth::{calls_view, storage_changes_view, Call, CallView, StorageChange, StorageChangeView};
use crate::keccak_map::StorageKeyToAddressMap;
use crate::pb::erc20_types::BalanceChangeType;
use crate::utils::{get_owner_from_keccak_address_map, is_erc20_valid_address};
use vstd::prelude::*;

pub use crate::utils::get_all_child_calls;

verus! {

/// The storage changes of a list of calls, call after call.
pub open spec fn all_storage_changes(calls: Seq<CallView>) -> Seq<StorageChangeView>
    decreases calls.len(),
{
    if calls.len() == 0 {
        Seq::empty()
    } else {
        all_storage_changes(calls.drop_last()) + calls.last().storage_changes
    }
}

/// The owner of a storage change, when the map knows its key and the owner is the
/// transfer's sender or receiver.
pub open spec fn owner_of(
    transfer: TransferView,
    map: Map<Seq<u8>, Seq<u8>>,
    sc: StorageChangeView,
) -> Option<Seq<u8>> {
    if map.contains_key(sc.key) && (map[sc.key] == transfer.from || map[sc.key] == transfer.to) {
        Some(map[sc.key])
    } else {
        None
    }
}

/// New minus old balance of a storage change, values read as unsigned big-endian.
pub open spec fn unsigned_change(sc: StorageChangeView) -> int {
    be_value(sc.new_value) - be_value(sc.old_value)
}

/// The storage changes with an owner, in order.
pub open spec fn owned_changes(
    scs: Seq<StorageChangeView>,
    transfer: TransferView,
    map: Map<Seq<u8>, Seq<u8>>,
) -> Seq<(Seq<u8>, StorageChangeView, BalanceChangeType)>
    decreases scs.len(),
{
    if scs.len() == 0 {
        Seq::empty()
    } else {
        let rest = owned_changes(scs.drop_last(), transfer, map);
        match owner_of(transfer, map, scs.last()) {
            Some(o) => rest.push((o, scs.last(), BalanceChangeType::BalanceChangeType2)),
            None => rest,
        }
    }
}

/// Every storage change whose key the map knows and whose owner is the transfer's sender
/// or receiver is among the owned changes, with that owner, whether the balance rose or
/// fell; and every owned change is such a storage change, with its owner and type 2.
pub proof fn lemma_owned_changes_exact(
    scs: Seq<StorageChangeView>,
    transfer: TransferView,
    map: Map<Seq<u8>, Seq<u8>>,
)
    ensures
        forall|k: int|
            0 <= k < scs.len() && map.contains_key(#[trigger] scs[k].key) && (map[scs[k].key] == transfer.from
                || map[scs[k].key] == transfer.to) ==> owned_changes(scs, transfer, map).contains(
                (map[scs[k].key], scs[k], BalanceChangeType::BalanceChangeType2),
            ),
        forall|j: int|
            0 <= j < owned_changes(scs, transfer, map).len() ==> {
                let e = #[trigger] owned_changes(scs, transfer, map)[j];
                &&& scs.contains(e.1)
                &&& map.contains_key(e.1.key)
                &&& e.0 == map[e.1.key]
                &&& (e.0 == transfer.from || e.0 == transfer.to)
                &&& e.2 == BalanceChangeType::BalanceChangeType2
            },
    decreases scs.len(),
{
    if scs.len() > 0 {
        let p = scs.drop_last();
        lemma_owned_changes_exact(p, transfer, map);
        let q = owned_changes(p, transfer, map);
        let r = owned_changes(scs, transfer, map);
        assert forall|k: int|
            0 <= k < scs.len() && map.contains_key(#[trigger] scs[k].key) && (map[scs[k].key] == transfer.from
                || map[scs[k].key] == transfer.to) implies r.contains(
                (map[scs[k].key], scs[k], BalanceChangeType::BalanceChangeType2),
            ) by {
            let e = (map[scs[k].key], scs[k], BalanceChangeType::BalanceChangeType2);
            if k < p.len() {
                assert(p[k] == scs[k]);
                assert(q.contains(e));
                let j = choose|j: int| 0 <= j < q.len() && q[j] == e;
                assert(r[j] == e);
            } else {
                assert(r[r.len() - 1] == e);
            }
        }
        assert forall|j: int| 0 <= j < r.len() implies {
            let e = #[trigger] r[j];
            &&& scs.contains(e.1)
            &&& map.contains_key(e.1.key)
            &&& e.0 == map[e.1.key]
            &&& (e.0 == transfer.from || e.0 == transfer.to)
            &&& e.2 == BalanceChangeType::BalanceChangeType2
        } by {
            if j < q.len() {
                assert(r[j] == q[j]);
                let i = choose|i: int| 0 <= i < p.len() && p[i] == q[j].1;
                assert(scs[i] == p[i]);
            } else {
                assert(scs[scs.len() - 1] == scs.last());
            }
        }
    }
}

/// What the owned storage changes took from balances, in total.
pub open spec fn total_sent(
    scs: Seq<StorageChangeView>,
    transfer: TransferView,
    map: Map<Seq<u8>, Seq<u8>>,
) -> int
    decreases scs.len(),
{
    if scs.len() == 0 {
        0
    } else {
        let rest = total_sent(scs.drop_last(), transfer, map);
        if owner_of(transfer, map, scs.last()) is Some && unsigned_change(scs.last()) < 0 {
            rest - unsigned_change(scs.last())
        } else {
            rest
        }
    }
}

/// What the owned storage changes added to balances, in total.
pub open spec fn total_received(
    scs: Seq<StorageChangeView>,
    transfer: TransferView,
    map: Map<Seq<u8>, Seq<u8>>,
) -> int
    decreases scs.len(),
{
    if scs.len() == 0 {
        0
    } else {
        let rest = total_received(scs.drop_last(), transfer, map);
        if owner_of(transfer, map, scs.last()) is Some && unsigned_change(scs.last()) >= 0 {
            rest + unsigned_change(scs.last())
        } else {
            rest
        }
    }
}

/// The owned storage changes whose balance moved by exactly `diff`, in order.
pub open spec fn changes_of_size(
    scs: Seq<StorageChangeView>,
    transfer: TransferView,
    map: Map<Seq<u8>, Seq<u8>>,
    diff: int,
) -> Seq<(Seq<u8>, StorageChangeView, BalanceChangeType)>
    decreases scs.len(),
{
    if scs.len() == 0 {
        Seq::empty()
    } else {
        let rest = changes_of_size(scs.drop_last(), transfer, map, diff);
        match owner_of(transfer, map, scs.last()) {
            Some(o) => if abs_int(unsigned_change(scs.last())) == diff {
                rest.push((o, scs.last(), BalanceChangeType::BalanceChangeType2))
            } else {
                rest
            },
            None => rest,
        }
    }
}

/// Algorithm #2: every owned storage change of the child calls; and, when what they sent
/// differs from the transfer's value, also each owned storage change whose size equals the
/// difference between what was sent and what was received.
pub open spec fn algorithm2(
    calls: Seq<CallView>,
    transfer: TransferView,
    map: Map<Seq<u8>, Seq<u8>>,
) -> Seq<(Seq<u8>, StorageChangeView, BalanceChangeType)> {
    let scs = all_storage_changes(calls);
    let sent = total_sent(scs, transfer, map);
    let received = total_received(scs, transfer, map);
    if sent == transfer.value {
        owned_changes(scs, transfer, map)
    } else {
        owned_changes(scs, transfer, map) + changes_of_size(
            scs,
            transfer,
            map,
            abs_int(sent - received),
        )
    }
}

/// The storage changes of the calls, in order.
pub(crate) fn collect_storage_changes(calls: &Vec<Call>) -> (r: Vec<StorageChange>)
    ensures
        storage_changes_view(r@) == all_storage_changes(calls_view(calls@)),
{
    let ghost cv = calls_view(calls@);
    let mut out: Vec<StorageChange> = Vec::new();
    let mut i: usize = 0;
    while i < calls.len()
        invariant
            cv == calls_view(calls@),
            i <= calls.len(),
            storage_changes_view(out@) == all_storage_changes(cv.subrange(0, i as int)),
        decreases calls.len() - i,
    {
        let ghost before = storage_changes_view(out@);
        let scs = &calls[i].storage_changes;
        let mut j: usize = 0;
        while j < scs.len()
            invariant
                j <= scs.len(),
                storage_changes_view(out@) == before + storage_changes_view(scs@).subrange(0, j as int),
            decreases scs.len() - j,
        {
            let ghost prev = out@;
            let d = scs[j].duplicate();
            out.push(d);
            proof {
                assert(storage_changes_view(out@) =~= storage_changes_view(prev).push(scs@[j as int]@));
                assert(storage_changes_view(scs@).subrange(0, j + 1) =~= storage_changes_view(scs@).subrange(0, j as int).push(scs@[j as int]@));
                assert(storage_changes_view(out@) =~= before + storage_changes_view(scs@).subrange(0, j + 1));
            }
            j += 1;
        }
        proof {
            assert(storage_changes_view(scs@).subrange(0, scs.len() as int) =~= storage_changes_view(scs@));
            assert(cv.subrange(0, i + 1).drop_last() =~= cv.subrange(0, i as int));
            assert(cv[i as int].storage_changes == storage_changes_view(scs@));
        }
        i += 1;
    }
    assert(cv.subrange(0, calls.len() as int) =~= cv);
    out
}

/// Algorithm #2 (case where storage changes are not in the same call as the transfer
/// event), over the storage changes of `child_calls`.
pub fn find_erc20_balance_changes_algorithm2(
    child_calls: Vec<Call>,
    transfer: &Transfer,
    keccak_address_map: &StorageKeyToAddressMap,
) -> (r: Vec<(Vec<u8>, StorageChange, BalanceChangeType)>)
    requires
        keccak_address_map.wf(),
    ensures
        found_view(r@) == algorithm2(calls_view(child_calls@), transfer@, keccak_address_map@),
        forall|k: int|
            0 <= k < all_storage_changes(calls_view(child_calls@)).len() && keccak_address_map@.contains_key(
                #[trigger] all_storage_changes(calls_view(child_calls@))[k].key,
            ) && (keccak_address_map@[all_storage_changes(calls_view(child_calls@))[k].key] == transfer@.from
                || keccak_address_map@[all_storage_changes(calls_view(child_calls@))[k].key] == transfer@.to)
                ==> found_view(r@).contains(
                (
                    keccak_address_map@[all_storage_changes(calls_view(child_calls@))[k].key],
                    all_storage_changes(calls_view(child_calls@))[k],
                    BalanceChangeType::BalanceChangeType2,
                ),
            ),
{
    let ghost map = keccak_address_map@;
    let ghost t = transfer@;
    let storage_changes = collect_storage_changes(&child_calls);
    let ghost scs = storage_changes_view(storage_changes@);
    let mut out: Vec<(Vec<u8>, StorageChange, BalanceChangeType)> = Vec::new();
    let mut total_sent_value = BigNum::zero();
    let mut total_received_value = BigNum::zero();

    let mut i: usize = 0;
    while i < storage_changes.len()
        invariant
            keccak_address_map.wf(),
            map == keccak_address_map@,
            t == transfer@,
            scs == storage_changes_view(storage_changes@),
            i <= storage_changes.len(),
            found_view(out@) == owned_changes(scs.subrange(0, i as int), t, map),
            total_sent_value@ == total_sent(scs.subrange(0, i as int), t, map),
            total_received_value@ == total_received(scs.subrange(0, i as int), t, map),
        decreases storage_changes.len() - i,
    {
        let storage_change = &storage_changes[i];
        proof {
            assert(scs.subrange(0, i + 1).drop_last() =~= scs.subrange(0, i as int));
            assert(scs[i as int] == storage_change@);
        }
        match get_owner_from_keccak_address_map(keccak_address_map, storage_change) {
            Some(owner) => {
                if is_erc20_valid_address(&owner, transfer) {
                    let old_balance = from_unsigned_bytes_be(storage_change.old_value.as_slice());
                    let new_balance = from_unsigned_bytes_be(storage_change.new_value.as_slice());
                    let balance_change = difference(&new_balance, &old_balance);
                    if lt(&balance_change, &BigNum::zero()) {
                        total_sent_value = sum(&total_sent_value, &neg(&balance_change));
                    } else {
                        total_received_value = sum(&total_received_value, &balance_change);
                    }
                    let ghost before = out@;
                    let ghost o = owner@;
                    out.push((owner, storage_change.duplicate(), BalanceChangeType::BalanceChangeType2));
                    proof {
                        assert(found_view(out@) =~= found_view(before).push(
                            (o, scs[i as int], BalanceChangeType::BalanceChangeType2),
                        ));
                    }
                }
            },
            None => {},
        }
        i += 1;
    }
    assert(scs.subrange(0, storage_changes.len() as int) =~= scs);
    assert(scs == all_storage_changes(calls_view(child_calls@)));
    proof {
        lemma_owned_changes_exact(scs, t, map);
    }

    if eq(&total_sent_value, &transfer.value) {
        return out;
    }

    let mut diff = difference(&total_sent_value, &total_received_value);
    if lt(&diff, &BigNum::zero()) {
        diff = neg(&diff);
    }
    let ghost first = found_view(out@);

    let mut i: usize = 0;
    while i < storage_changes.len()
        invariant
            keccak_address_map.wf(),
            map == keccak_address_map@,
            t == transfer@,
            scs == storage_changes_view(storage_changes@),
            i <= storage_changes.len(),
            found_view(out@) == first + changes_of_size(scs.subrange(0, i as int), t, map, diff@),
        decreases storage_changes.len() - i,
    {
        let storage_change = &storage_changes[i];
        proof {
            assert(scs.subrange(0, i + 1).drop_last() =~= scs.subrange(0, i as int));
            assert(scs[i as int] == storage_change@);
        }
        match get_owner_from_keccak_address_map(keccak_address_map, storage_change) {
            Some(owner) => {
                if is_erc20_valid_address(&owner, transfer) {
                    let old_balance = from_unsigned_bytes_be(storage_change.old_value.as_slice());
                    let new_balance = from_unsigned_bytes_be(storage_change.new_value.as_slice());
                    let mut balance_change = difference(&new_balance, &old_balance);
                    if lt(&balance_change, &BigNum::zero()) {
                        balance_change = neg(&balance_change);
                    }
                    if eq(&balance_change, &diff) {
                        let ghost before = out@;
                        let ghost o = owner@;
                        out.push((owner, storage_change.duplicate(), BalanceChangeType::BalanceChangeType2));
                        proof {
                            assert(found_view(out@) =~= found_view(before).push(
                                (o, scs[i as int], BalanceChangeType::BalanceChangeType2),
                            ));
                        }
                    }
                }
            },
            None => {},
        }
        i += 1;
    }
    assert(scs.subrange(0, storage_changes.len() as int) =~= scs);
    proof {
        let all = found_view(out@);
        assert forall|e: (Seq<u8>, StorageChangeView, BalanceChangeType)| first.contains(e) implies all.contains(e) by {
            let j = choose|j: int| 0 <= j < first.len() && first[j] == e;
            assert(all[j] == e);
        }
    }
    out
}

} // verus!
