//! The ERC-20 transfers and balance changes of a block.
use crate::abi::{decode_transfer, Transfer, TransferView};
use crate::algorithms::algorithm_call::{algorithm1, found_view};
use crate::algorithms::algorithm_child_calls::{algorithm2, all_storage_changes, changes_of_size, owned_changes, total_received, total_sent};
use crate::algorithms::{
    addresses_for_storage_keys, find_erc20_balance_changes_algorithm1,
    find_erc20_balance_changes_algorithm2, get_all_child_calls, StorageKeyToAddressMap,
};
use crate::bignum::{abs_int, be_value, difference, eq, from_unsigned_bytes_be, int_text, to_decimal_string, BigNum};
use crate::eth::{
    calls_view, logs_view, Block, Call, CallView, Clock, Log, LogView, StorageChange,
    StorageChangeView, TransactionTraceView, trxs_view, STATUS_SUCCEEDED,
};
use crate::hexcode::{encode, hex_text};
use crate::pb::erc20_types::{BalanceChange, BalanceChangeType, Events};
use crate::pb::erc20_types::Transfer as TransferRecord;
use crate::utils::{
    child_calls_of, clock_to_date, date_part, index_to_version, keccak_map_of, preimages_ok,
    timestamp_display, valid_balance,
};
use vstd::prelude::*;

verus! {

/// A transfer found in a block: transaction index, call, log and decoded event.
pub type TransferItem = (u32, Call, Log, Transfer);

/// Contents of a transfer item.
pub type TransferItemView = (u32, CallView, LogView, TransferView);

/// Contents of a list of transfer items.
pub open spec fn items_view(v: Seq<TransferItem>) -> Seq<TransferItemView> {
    v.map_values(|x: TransferItem| (x.0, x.1@, x.2@, x.3@))
}

/// The non-zero transfers that the logs decode to, in order.
pub open spec fn log_transfers(logs: Seq<LogView>, call: CallView, ti: u32) -> Seq<TransferItemView>
    decreases logs.len(),
{
    if logs.len() == 0 {
        Seq::empty()
    } else {
        let rest = log_transfers(logs.drop_last(), call, ti);
        match decode_transfer(logs.last()) {
            Some(t) => if t.value != 0 {
                rest.push((ti, call, logs.last(), t))
            } else {
                rest
            },
            None => rest,
        }
    }
}

/// The transfers of the calls that were not reverted, call after call.
pub open spec fn call_list_transfers(calls: Seq<CallView>, ti: u32) -> Seq<TransferItemView>
    decreases calls.len(),
{
    if calls.len() == 0 {
        Seq::empty()
    } else {
        let c = calls.last();
        call_list_transfers(calls.drop_last(), ti) + if c.state_reverted {
            Seq::empty()
        } else {
            log_transfers(c.logs, c, ti)
        }
    }
}

/// The transfers of a transaction: none unless it succeeded.
pub open spec fn trx_transfers(trx: TransactionTraceView, ti: u32) -> Seq<TransferItemView> {
    if trx.status == STATUS_SUCCEEDED {
        call_list_transfers(trx.calls, ti)
    } else {
        Seq::empty()
    }
}

/// The transfers of the transactions, transaction after transaction.
pub open spec fn block_transfers(trxs: Seq<TransactionTraceView>) -> Seq<TransferItemView>
    decreases trxs.len(),
{
    if trxs.len() == 0 {
        Seq::empty()
    } else {
        block_transfers(trxs.drop_last()) + trx_transfers(trxs.last(), (trxs.len() - 1) as u32)
    }
}

/// What holds of every transfer found in a block: it comes from a succeeded transaction
/// of the block and a call of it that was not reverted, its log decodes to it, and its
/// value is not zero.
pub open spec fn transfer_item_ok(trxs: Seq<TransactionTraceView>, x: TransferItemView) -> bool {
    &&& x.0 < trxs.len()
    &&& trxs[x.0 as int].status == STATUS_SUCCEEDED
    &&& trxs[x.0 as int].calls.contains(x.1)
    &&& !x.1.state_reverted
    &&& x.1.logs.contains(x.2)
    &&& decode_transfer(x.2) == Some(x.3)
    &&& x.3.value != 0
}

proof fn lemma_log_transfers_ok(
    trxs: Seq<TransactionTraceView>,
    logs: Seq<LogView>,
    call: CallView,
    ti: u32,
)
    requires
        ti < trxs.len(),
        trxs[ti as int].status == STATUS_SUCCEEDED,
        trxs[ti as int].calls.contains(call),
        !call.state_reverted,
        forall|k: int| 0 <= k < logs.len() ==> call.logs.contains(#[trigger] logs[k]),
    ensures
        forall|k: int| 0 <= k < log_transfers(logs, call, ti).len() ==> transfer_item_ok(trxs, #[trigger] log_transfers(logs, call, ti)[k]),
    decreases logs.len(),
{
    if logs.len() > 0 {
        assert forall|k: int| 0 <= k < logs.drop_last().len() implies call.logs.contains(#[trigger] logs.drop_last()[k]) by {
            assert(logs.drop_last()[k] == logs[k]);
        }
        lemma_log_transfers_ok(trxs, logs.drop_last(), call, ti);
        assert(call.logs.contains(logs[logs.len() - 1]));
        let rest = log_transfers(logs.drop_last(), call, ti);
        match decode_transfer(logs.last()) {
            Some(t) => {
                if t.value != 0 {
                    let all = rest.push((ti, call, logs.last(), t));
                    assert(log_transfers(logs, call, ti) == all);
                    assert forall|k: int| 0 <= k < all.len() implies transfer_item_ok(trxs, #[trigger] all[k]) by {
                        if k < rest.len() {
                            assert(all[k] == rest[k]);
                        }
                    }
                }
            },
            None => {},
        }
    }
}

proof fn lemma_call_list_transfers_ok(trxs: Seq<TransactionTraceView>, calls: Seq<CallView>, ti: u32)
    requires
        ti < trxs.len(),
        trxs[ti as int].status == STATUS_SUCCEEDED,
        forall|k: int| 0 <= k < calls.len() ==> trxs[ti as int].calls.contains(#[trigger] calls[k]),
    ensures
        forall|k: int| 0 <= k < call_list_transfers(calls, ti).len() ==> transfer_item_ok(trxs, #[trigger] call_list_transfers(calls, ti)[k]),
    decreases calls.len(),
{
    if calls.len() > 0 {
        let c = calls.last();
        assert forall|k: int| 0 <= k < calls.drop_last().len() implies trxs[ti as int].calls.contains(#[trigger] calls.drop_last()[k]) by {
            assert(calls.drop_last()[k] == calls[k]);
        }
        lemma_call_list_transfers_ok(trxs, calls.drop_last(), ti);
        assert(trxs[ti as int].calls.contains(calls[calls.len() - 1]));
        if !c.state_reverted {
            assert forall|k: int| 0 <= k < c.logs.len() implies c.logs.contains(#[trigger] c.logs[k]) by {}
            lemma_log_transfers_ok(trxs, c.logs, c, ti);
        }
        let a = call_list_transfers(calls.drop_last(), ti);
        let b = if c.state_reverted { Seq::empty() } else { log_transfers(c.logs, c, ti) };
        assert forall|k: int| 0 <= k < (a + b).len() implies transfer_item_ok(trxs, #[trigger] (a + b)[k]) by {
            if k >= a.len() {
                assert((a + b)[k] == b[k - a.len()]);
            }
        }
    }
}

/// Every transfer that `block_transfers` finds satisfies `transfer_item_ok`.
pub proof fn lemma_block_transfers_ok(trxs: Seq<TransactionTraceView>, n: int)
    requires
        0 <= n <= trxs.len(),
        trxs.len() <= u32::MAX,
    ensures
        forall|k: int| 0 <= k < block_transfers(trxs.subrange(0, n)).len() ==> transfer_item_ok(trxs, #[trigger] block_transfers(trxs.subrange(0, n))[k]),
    decreases n,
{
    if n > 0 {
        let s = trxs.subrange(0, n);
        assert(s.drop_last() =~= trxs.subrange(0, n - 1));
        lemma_block_transfers_ok(trxs, n - 1);
        let t = trxs[n - 1];
        assert(s.last() == t);
        if t.status == STATUS_SUCCEEDED {
            assert forall|k: int| 0 <= k < t.calls.len() implies trxs[n - 1].calls.contains(#[trigger] t.calls[k]) by {}
            lemma_call_list_transfers_ok(trxs, t.calls, (n - 1) as u32);
        }
        let a = block_transfers(s.drop_last());
        let b = trx_transfers(t, (n - 1) as u32);
        assert(block_transfers(s) == a + b);
        assert forall|k: int| 0 <= k < (a + b).len() implies transfer_item_ok(trxs, #[trigger] (a + b)[k]) by {
            if k >= a.len() {
                assert((a + b)[k] == b[k - a.len()]);
            }
        }
    }
}

/// The ERC-20 transfers of a block with a non-zero value, from the calls of succeeded
/// transactions that were not reverted, each with the index of its transaction.
pub fn iter_transfers(block: &Block) -> (r: Vec<TransferItem>)
    requires
        block.transaction_traces.len() <= u32::MAX,
    ensures
        items_view(r@) == block_transfers(trxs_view(block.transaction_traces@)),
        forall|k: int| 0 <= k < r.len() ==> transfer_item_ok(
            trxs_view(block.transaction_traces@),
            #[trigger] items_view(r@)[k],
        ),
{
    let ghost trxs = trxs_view(block.transaction_traces@);
    let mut out: Vec<TransferItem> = Vec::new();
    let mut trx_index: u32 = 0;
    let mut i: usize = 0;
    while i < block.transaction_traces.len()
        invariant
            trxs == trxs_view(block.transaction_traces@),
            block.transaction_traces.len() <= u32::MAX,
            i <= block.transaction_traces.len(),
            trx_index == i,
            items_view(out@) == block_transfers(trxs.subrange(0, i as int)),
        decreases block.transaction_traces.len() - i,
    {
        let trx = &block.transaction_traces[i];
        let ghost before = items_view(out@);
        proof {
            assert(trxs.subrange(0, i + 1).drop_last() =~= trxs.subrange(0, i as int));
            assert(trxs[i as int] == trx@);
        }
        if trx.status == STATUS_SUCCEEDED {
            let ghost cv = trx@.calls;
            let mut j: usize = 0;
            while j < trx.calls.len()
                invariant
                    cv == calls_view(trx.calls@),
                    j <= trx.calls.len(),
                    items_view(out@) == before + call_list_transfers(cv.subrange(0, j as int), trx_index),
                decreases trx.calls.len() - j,
            {
                let call = &trx.calls[j];
                let ghost before_call = items_view(out@);
                proof {
                    assert(cv.subrange(0, j + 1).drop_last() =~= cv.subrange(0, j as int));
                    assert(cv[j as int] == call@);
                }
                if !call.state_reverted {
                    let ghost lv = call@.logs;
                    let mut k: usize = 0;
                    while k < call.logs.len()
                        invariant
                            lv == logs_view(call.logs@),
                            k <= call.logs.len(),
                            items_view(out@) == before_call + log_transfers(lv.subrange(0, k as int), call@, trx_index),
                        decreases call.logs.len() - k,
                    {
                        let log = &call.logs[k];
                        proof {
                            assert(lv.subrange(0, k + 1).drop_last() =~= lv.subrange(0, k as int));
                            assert(lv[k as int] == log@);
                        }
                        match Transfer::match_and_decode(log) {
                            Some(transfer) => {
                                if !eq(&transfer.value, &BigNum::zero()) {
                                    let ghost prev = out@;
                                    let ghost tv = transfer@;
                                    out.push((trx_index, call.duplicate(), log.duplicate(), transfer));
                                    proof {
                                        assert(items_view(out@) =~= items_view(prev).push((trx_index, call@, log@, tv)));
                                    }
                                }
                            },
                            None => {},
                        }
                        k += 1;
                    }
                    proof {
                        assert(lv.subrange(0, call.logs.len() as int) =~= lv);
                    }
                }
                j += 1;
            }
            proof {
                assert(cv.subrange(0, trx.calls.len() as int) =~= cv);
            }
        }
        trx_index += 1;
        i += 1;
    }
    proof {
        assert(trxs.subrange(0, block.transaction_traces.len() as int) =~= trxs);
        lemma_block_transfers_ok(trxs, trxs.len() as int);
    }
    out
}

/// A balance change found for a transfer: the transfer item, then the owner, the storage
/// change and how it was found.
pub type BalanceItem = (u32, Call, Log, Transfer, Vec<u8>, StorageChange, BalanceChangeType);

/// Contents of a balance item.
pub type BalanceItemView = (
    u32,
    CallView,
    LogView,
    TransferView,
    Seq<u8>,
    StorageChangeView,
    BalanceChangeType,
);

/// Contents of a list of balance items.
pub open spec fn balance_items_view(v: Seq<BalanceItem>) -> Seq<BalanceItemView> {
    v.map_values(|x: BalanceItem| (x.0, x.1@, x.2@, x.3@, x.4@, x.5@, x.6))
}

/// The found (owner, storage change, type) triples of a transfer, each with the transfer.
pub open spec fn tag_found(
    x: TransferItemView,
    found: Seq<(Seq<u8>, StorageChangeView, BalanceChangeType)>,
) -> Seq<BalanceItemView> {
    found.map_values(
        |f: (Seq<u8>, StorageChangeView, BalanceChangeType)| (x.0, x.1, x.2, x.3, f.0, f.1, f.2),
    )
}

/// The storage key map once the calls of the given transfers have been read, later calls
/// replacing earlier ones.
pub open spec fn items_map(items: Seq<TransferItemView>) -> Map<Seq<u8>, Seq<u8>>
    decreases items.len(),
{
    if items.len() == 0 {
        Map::empty()
    } else {
        items_map(items.drop_last()).union_prefer_right(keccak_map_of(items.last().1.keccak_preimages))
    }
}

/// The balance changes found for one transfer with the map `m`: those of algorithm #1,
/// then those of algorithm #2 over the child calls of the transfer's call.
pub open spec fn item_balance_changes(
    trxs: Seq<TransactionTraceView>,
    x: TransferItemView,
    m: Map<Seq<u8>, Seq<u8>>,
) -> Seq<BalanceItemView> {
    tag_found(x, algorithm1(x.1.storage_changes, x.3, m)) + tag_found(
        x,
        algorithm2(child_calls_of(trxs[x.0 as int].calls, x.1.index), x.3, m),
    )
}

/// The balance changes of a list of transfers, transfer after transfer, each found with
/// the map of the calls read so far (its own included).
pub open spec fn balance_changes_of(
    trxs: Seq<TransactionTraceView>,
    items: Seq<TransferItemView>,
) -> Seq<BalanceItemView>
    decreases items.len(),
{
    if items.len() == 0 {
        Seq::empty()
    } else {
        balance_changes_of(trxs, items.drop_last()) + item_balance_changes(
            trxs,
            items.last(),
            items_map(items),
        )
    }
}

/// Appends each found triple, with the transfer item.
fn push_found(
    out: &mut Vec<BalanceItem>,
    item: &TransferItem,
    found: &Vec<(Vec<u8>, StorageChange, BalanceChangeType)>,
)
    ensures
        balance_items_view(final(out)@) == balance_items_view(old(out)@) + tag_found(
            (item.0, item.1@, item.2@, item.3@),
            found_view(found@),
        ),
{
    let ghost x = (item.0, item.1@, item.2@, item.3@);
    let ghost start = balance_items_view(out@);
    let mut i: usize = 0;
    while i < found.len()
        invariant
            x == (item.0, item.1@, item.2@, item.3@),
            i <= found.len(),
            balance_items_view(out@) == start + tag_found(x, found_view(found@).subrange(0, i as int)),
        decreases found.len() - i,
    {
        let ghost prev = out@;
        let f = &found[i];
        let c = item.1.duplicate();
        let l = item.2.duplicate();
        let t = item.3.duplicate();
        let o = crate::eth::copy_bytes(&f.0);
        let sc = f.1.duplicate();
        let tuple = (item.0, c, l, t, o, sc, f.2);
        out.push(tuple);
        proof {
            assert(found_view(found@).subrange(0, i + 1) =~= found_view(found@).subrange(0, i as int).push(found_view(found@)[i as int]));
            assert(balance_items_view(out@) =~= balance_items_view(prev).push(tag_found(x, found_view(found@))[i as int]));
            assert(tag_found(x, found_view(found@).subrange(0, i + 1)) =~= tag_found(x, found_view(found@).subrange(0, i as int)).push(tag_found(x, found_view(found@))[i as int]));
            assert(balance_items_view(out@) =~= start + tag_found(x, found_view(found@).subrange(0, i + 1)));
        }
        i += 1;
    }
    assert(found_view(found@).subrange(0, found.len() as int) =~= found_view(found@));
}

/// The balance changes of the transfers, found by algorithm #1 and then algorithm #2 for
/// each transfer in turn.
pub fn iter_balance_changes(block: &Block, transfers: Vec<TransferItem>) -> (r: Vec<BalanceItem>)
    requires
        forall|k: int| 0 <= k < transfers.len() ==> (#[trigger] transfers@[k]).0 < block.transaction_traces.len(),
        forall|k: int| 0 <= k < transfers.len() ==> preimages_ok((#[trigger] transfers@[k]).1@.keccak_preimages),
    ensures
        balance_items_view(r@) == balance_changes_of(
            trxs_view(block.transaction_traces@),
            items_view(transfers@),
        ),
{
    let ghost trxs = trxs_view(block.transaction_traces@);
    let ghost items = items_view(transfers@);
    let mut out: Vec<BalanceItem> = Vec::new();
    let mut keccak_address_map = StorageKeyToAddressMap::new();
    let mut i: usize = 0;
    while i < transfers.len()
        invariant
            trxs == trxs_view(block.transaction_traces@),
            items == items_view(transfers@),
            forall|k: int| 0 <= k < transfers.len() ==> (#[trigger] transfers@[k]).0 < block.transaction_traces.len(),
            forall|k: int| 0 <= k < transfers.len() ==> preimages_ok((#[trigger] transfers@[k]).1@.keccak_preimages),
            i <= transfers.len(),
            keccak_address_map.wf(),
            keccak_address_map@ == items_map(items.subrange(0, i as int)),
            balance_items_view(out@) == balance_changes_of(trxs, items.subrange(0, i as int)),
        decreases transfers.len() - i,
    {
        let item = &transfers[i];
        let trx = &block.transaction_traces[item.0 as usize];
        proof {
            assert(items.subrange(0, i + 1).drop_last() =~= items.subrange(0, i as int));
            assert(items[i as int] == (item.0, item.1@, item.2@, item.3@));
            assert(preimages_ok(transfers@[i as int].1@.keccak_preimages));
        }
        keccak_address_map.extend(addresses_for_storage_keys(&item.1));

        let found1 = find_erc20_balance_changes_algorithm1(&item.1, &item.3, &keccak_address_map);
        push_found(&mut out, item, &found1);

        let child_calls = get_all_child_calls(&item.1, trx);
        let found2 = find_erc20_balance_changes_algorithm2(child_calls, &item.3, &keccak_address_map);
        push_found(&mut out, item, &found2);
        proof {
            assert(trxs[item.0 as int] == trx@);
            assert(balance_items_view(out@) =~= balance_changes_of(trxs, items.subrange(0, i + 1)));
        }
        i += 1;
    }
    assert(items.subrange(0, transfers.len() as int) =~= items);
    out
}

/// The date of a block, from its timestamp.
pub open spec fn clock_date(clock: Clock) -> Seq<char> {
    date_part(timestamp_display(clock.timestamp->0.seconds, clock.timestamp->0.nanos))
}

/// The transfer record of a transfer item of transaction `trx`.
pub open spec fn is_transfer_record(
    r: TransferRecord,
    clock: Clock,
    trx: TransactionTraceView,
    x: TransferItemView,
) -> bool {
    &&& r.block_num == clock.number
    &&& r.block_hash@ == clock.id@
    &&& r.date@ == clock_date(clock)
    &&& r.timestamp == clock.timestamp
    &&& r.transaction_id@ == hex_text(trx.hash)
    &&& r.call_index == x.1.index
    &&& r.log_index == x.2.index
    &&& r.log_block_index == x.2.block_index
    &&& r.log_ordinal == x.2.ordinal
    &&& r.data@ == hex_text(x.2.data)
    &&& r.topic0@ == hex_text(x.2.topics[0])
    &&& r.contract@ == hex_text(x.1.address)
    &&& r.from@ == hex_text(x.3.from)
    &&& r.to@ == hex_text(x.3.to)
    &&& r.value@ == int_text(x.3.value)
}

/// One transfer record per transfer item, in order.
pub fn map_transfers(clock: &Clock, block: &Block, transfers: Vec<TransferItem>) -> (r: Vec<TransferRecord>)
    requires
        forall|k: int| 0 <= k < transfers.len() ==> (#[trigger] transfers@[k]).0 < block.transaction_traces.len(),
        forall|k: int| 0 <= k < transfers.len() ==> (#[trigger] transfers@[k]).2.topics.len() > 0,
        transfers.len() > 0 ==> clock.timestamp is Some,
    ensures
        r.len() == transfers.len(),
        forall|k: int| 0 <= k < r.len() ==> is_transfer_record(
            #[trigger] r@[k],
            *clock,
            block.transaction_traces@[items_view(transfers@)[k].0 as int]@,
            items_view(transfers@)[k],
        ),
{
    let ghost items = items_view(transfers@);
    let mut events: Vec<TransferRecord> = Vec::new();
    let mut i: usize = 0;
    while i < transfers.len()
        invariant
            items == items_view(transfers@),
            forall|k: int| 0 <= k < transfers.len() ==> (#[trigger] transfers@[k]).0 < block.transaction_traces.len(),
            forall|k: int| 0 <= k < transfers.len() ==> (#[trigger] transfers@[k]).2.topics.len() > 0,
            transfers.len() > 0 ==> clock.timestamp is Some,
            i <= transfers.len(),
            events.len() == i,
            forall|k: int| 0 <= k < i ==> is_transfer_record(
                #[trigger] events@[k],
                *clock,
                block.transaction_traces@[items[k].0 as int]@,
                items[k],
            ),
        decreases transfers.len() - i,
    {
        let item = &transfers[i];
        let trx = &block.transaction_traces[item.0 as usize];
        let call = &item.1;
        let log = &item.2;
        let transfer = &item.3;
        proof {
            assert(transfers@[i as int].0 < block.transaction_traces.len());
            assert(transfers@[i as int].2.topics.len() > 0);
        }
        let record = TransferRecord {
            block_num: clock.number,
            block_hash: clock.id.clone(),
            date: clock_to_date(clock),
            timestamp: clock.timestamp,
            transaction_id: encode(trx.hash.as_slice()),
            call_index: call.index,
            log_index: log.index,
            log_block_index: log.block_index,
            log_ordinal: log.ordinal,
            data: encode(log.data.as_slice()),
            topic0: encode(log.topics[0].as_slice()),
            contract: encode(call.address.as_slice()),
            from: encode(transfer.from.as_slice()),
            to: encode(transfer.to.as_slice()),
            value: to_decimal_string(&transfer.value),
        };
        proof {
            assert(items[i as int] == (item.0, item.1@, item.2@, item.3@));
            assert(log@.topics[0] == log.topics@[0]@);
        }
        events.push(record);
        i += 1;
    }
    events
}

/// The balance-change record of a balance item of transaction `trx`, numbered `index`.
pub open spec fn is_balance_change_record(
    r: BalanceChange,
    clock: Clock,
    trx: TransactionTraceView,
    x: BalanceItemView,
    index: u32,
) -> bool {
    &&& r.block_num == clock.number
    &&& r.block_hash@ == clock.id@
    &&& r.date@ == clock_date(clock)
    &&& r.timestamp == clock.timestamp
    &&& r.transaction_id@ == hex_text(trx.hash)
    &&& r.call_index == x.1.index
    &&& r.log_index == x.2.index
    &&& r.log_block_index == x.2.block_index
    &&& r.log_ordinal == x.2.ordinal
    &&& r.storage_key@ == hex_text(x.5.key)
    &&& r.storage_ordinal == x.5.ordinal
    &&& r.storage_address@ == hex_text(x.5.address)
    &&& r.index == index
    &&& r.version == (clock.number % 0x1_0000_0000) * 0x1_0000_0000 + index
    &&& r.contract@ == hex_text(x.1.address)
    &&& r.owner@ == hex_text(x.4)
    &&& r.old_balance@ == int_text(be_value(x.5.old_value) as int)
    &&& r.new_balance@ == int_text(be_value(x.5.new_value) as int)
    &&& r.amount@ == int_text(be_value(x.5.new_value) - be_value(x.5.old_value))
    &&& r.from@ == hex_text(x.3.from)
    &&& r.to@ == hex_text(x.3.to)
    &&& r.value@ == int_text(x.3.value)
    &&& r.change_type == x.6.number()
}

/// One balance-change record per balance item, numbered from 0 in order; their versions
/// therefore grow strictly.
pub fn map_balance_changes(
    clock: &Clock,
    block: &Block,
    balance_changes: Vec<BalanceItem>,
) -> (r: Vec<BalanceChange>)
    requires
        forall|k: int| 0 <= k < balance_changes.len() ==> (#[trigger] balance_changes@[k]).0 < block.transaction_traces.len(),
        balance_changes.len() <= u32::MAX,
        balance_changes.len() > 0 ==> clock.timestamp is Some,
    ensures
        r.len() == balance_changes.len(),
        forall|k: int| 0 <= k < r.len() ==> is_balance_change_record(
            #[trigger] r@[k],
            *clock,
            block.transaction_traces@[balance_items_view(balance_changes@)[k].0 as int]@,
            balance_items_view(balance_changes@)[k],
            k as u32,
        ),
        forall|a: int, b: int| 0 <= a < b < r.len() ==> r@[a].version < r@[b].version,
{
    let ghost items = balance_items_view(balance_changes@);
    let mut events: Vec<BalanceChange> = Vec::new();
    let mut index: u32 = 0;
    let mut i: usize = 0;
    while i < balance_changes.len()
        invariant
            items == balance_items_view(balance_changes@),
            forall|k: int| 0 <= k < balance_changes.len() ==> (#[trigger] balance_changes@[k]).0 < block.transaction_traces.len(),
            balance_changes.len() <= u32::MAX,
            balance_changes.len() > 0 ==> clock.timestamp is Some,
            i <= balance_changes.len(),
            index == i,
            events.len() == i,
            forall|k: int| 0 <= k < i ==> is_balance_change_record(
                #[trigger] events@[k],
                *clock,
                block.transaction_traces@[items[k].0 as int]@,
                items[k],
                k as u32,
            ),
        decreases balance_changes.len() - i,
    {
        let item = &balance_changes[i];
        let trx = &block.transaction_traces[item.0 as usize];
        let call = &item.1;
        let log = &item.2;
        let transfer = &item.3;
        let owner = &item.4;
        let storage_change = &item.5;
        proof {
            assert(balance_changes@[i as int].0 < block.transaction_traces.len());
        }
        let old_balance = from_unsigned_bytes_be(storage_change.old_value.as_slice());
        let new_balance = from_unsigned_bytes_be(storage_change.new_value.as_slice());
        let amount = difference(&new_balance, &old_balance);
        let record = BalanceChange {
            block_num: clock.number,
            block_hash: clock.id.clone(),
            date: clock_to_date(clock),
            timestamp: clock.timestamp,
            transaction_id: encode(trx.hash.as_slice()),
            call_index: call.index,
            log_index: log.index,
            log_block_index: log.block_index,
            log_ordinal: log.ordinal,
            storage_key: encode(storage_change.key.as_slice()),
            storage_ordinal: storage_change.ordinal,
            storage_address: encode(storage_change.address.as_slice()),
            index,
            version: index_to_version(clock, index),
            contract: encode(call.address.as_slice()),
            owner: encode(owner.as_slice()),
            old_balance: to_decimal_string(&old_balance),
            new_balance: to_decimal_string(&new_balance),
            amount: to_decimal_string(&amount),
            from: encode(transfer.from.as_slice()),
            to: encode(transfer.to.as_slice()),
            value: to_decimal_string(&transfer.value),
            change_type: item.6.to_i32(),
        };
        proof {
            assert(items[i as int] == (item.0, item.1@, item.2@, item.3@, item.4@, item.5@, item.6));
        }
        events.push(record);
        index += 1;
        i += 1;
    }
    events
}

/// What holds of each (owner, storage change, type) found for a transfer: the owner is
/// the sender or the receiver, and a change found by algorithm #1 moved the balance by the
/// transfer's value within one wei.
pub open spec fn found_ok(t: TransferView, f: (Seq<u8>, StorageChangeView, BalanceChangeType)) -> bool {
    &&& (f.0 == t.from || f.0 == t.to)
    &&& f.2 == BalanceChangeType::BalanceChangeType1 ==> valid_balance(t, f.1)
}

/// What holds of each balance change found for a block.
pub open spec fn balance_item_ok(x: BalanceItemView) -> bool {
    found_ok(x.3, (x.4, x.5, x.6))
}

proof fn lemma_algorithm1_ok(scs: Seq<StorageChangeView>, t: TransferView, m: Map<Seq<u8>, Seq<u8>>)
    ensures
        forall|k: int| 0 <= k < algorithm1(scs, t, m).len() ==> found_ok(t, #[trigger] algorithm1(scs, t, m)[k]),
    decreases scs.len(),
{
    if scs.len() > 0 {
        lemma_algorithm1_ok(scs.drop_last(), t, m);
        let rest = algorithm1(scs.drop_last(), t, m);
        let all = algorithm1(scs, t, m);
        assert forall|k: int| 0 <= k < all.len() implies found_ok(t, #[trigger] all[k]) by {
            if k < rest.len() {
                assert(all[k] == rest[k]);
            }
        }
    }
}

proof fn lemma_owned_changes_ok(scs: Seq<StorageChangeView>, t: TransferView, m: Map<Seq<u8>, Seq<u8>>)
    ensures
        forall|k: int| 0 <= k < owned_changes(scs, t, m).len() ==> found_ok(t, #[trigger] owned_changes(scs, t, m)[k]),
    decreases scs.len(),
{
    if scs.len() > 0 {
        lemma_owned_changes_ok(scs.drop_last(), t, m);
        let rest = owned_changes(scs.drop_last(), t, m);
        let all = owned_changes(scs, t, m);
        assert forall|k: int| 0 <= k < all.len() implies found_ok(t, #[trigger] all[k]) by {
            if k < rest.len() {
                assert(all[k] == rest[k]);
            }
        }
    }
}

proof fn lemma_changes_of_size_ok(scs: Seq<StorageChangeView>, t: TransferView, m: Map<Seq<u8>, Seq<u8>>, d: int)
    ensures
        forall|k: int| 0 <= k < changes_of_size(scs, t, m, d).len() ==> found_ok(t, #[trigger] changes_of_size(scs, t, m, d)[k]),
    decreases scs.len(),
{
    if scs.len() > 0 {
        lemma_changes_of_size_ok(scs.drop_last(), t, m, d);
        let rest = changes_of_size(scs.drop_last(), t, m, d);
        let all = changes_of_size(scs, t, m, d);
        assert forall|k: int| 0 <= k < all.len() implies found_ok(t, #[trigger] all[k]) by {
            if k < rest.len() {
                assert(all[k] == rest[k]);
            }
        }
    }
}

proof fn lemma_algorithm2_ok(calls: Seq<CallView>, t: TransferView, m: Map<Seq<u8>, Seq<u8>>)
    ensures
        forall|k: int| 0 <= k < algorithm2(calls, t, m).len() ==> found_ok(t, #[trigger] algorithm2(calls, t, m)[k]),
{
    let scs = all_storage_changes(calls);
    let sent = total_sent(scs, t, m);
    let received = total_received(scs, t, m);
    lemma_owned_changes_ok(scs, t, m);
    lemma_changes_of_size_ok(scs, t, m, abs_int(sent - received));
    let a = owned_changes(scs, t, m);
    let b = changes_of_size(scs, t, m, abs_int(sent - received));
    assert forall|k: int| 0 <= k < (a + b).len() implies found_ok(t, #[trigger] (a + b)[k]) by {
        if k >= a.len() {
            assert((a + b)[k] == b[k - a.len()]);
        }
    }
}

proof fn lemma_tag_found_ok(x: TransferItemView, found: Seq<(Seq<u8>, StorageChangeView, BalanceChangeType)>)
    requires
        forall|k: int| 0 <= k < found.len() ==> found_ok(x.3, #[trigger] found[k]),
    ensures
        forall|k: int| 0 <= k < tag_found(x, found).len() ==> balance_item_ok(#[trigger] tag_found(x, found)[k]),
{
    assert forall|k: int| 0 <= k < tag_found(x, found).len() implies balance_item_ok(#[trigger] tag_found(x, found)[k]) by {
        assert(found_ok(x.3, found[k]));
    }
}

/// Every balance change found for a list of transfers has the sender or the receiver of
/// its transfer as owner, and those found by algorithm #1 moved the balance by the
/// transfer's value within one wei.
pub proof fn lemma_balance_changes_ok(trxs: Seq<TransactionTraceView>, items: Seq<TransferItemView>)
    ensures
        forall|k: int| 0 <= k < balance_changes_of(trxs, items).len() ==> balance_item_ok(#[trigger] balance_changes_of(trxs, items)[k]),
    decreases items.len(),
{
    if items.len() > 0 {
        lemma_balance_changes_ok(trxs, items.drop_last());
        let x = items.last();
        let m = items_map(items);
        lemma_algorithm1_ok(x.1.storage_changes, x.3, m);
        lemma_algorithm2_ok(child_calls_of(trxs[x.0 as int].calls, x.1.index), x.3, m);
        let f1 = algorithm1(x.1.storage_changes, x.3, m);
        let f2 = algorithm2(child_calls_of(trxs[x.0 as int].calls, x.1.index), x.3, m);
        lemma_tag_found_ok(x, f1);
        lemma_tag_found_ok(x, f2);
        let a = balance_changes_of(trxs, items.drop_last());
        let b = tag_found(x, f1) + tag_found(x, f2);
        assert(balance_changes_of(trxs, items) == a + b);
        assert forall|k: int| 0 <= k < (a + b).len() implies balance_item_ok(#[trigger] (a + b)[k]) by {
            if k >= a.len() {
                let j = k - a.len();
                assert((a + b)[k] == b[j]);
                if j >= tag_found(x, f1).len() {
                    assert(b[j] == tag_found(x, f2)[j - tag_found(x, f1).len()]);
                }
            }
        }
    }
}

/// A copy of a list of transfer items.
fn copy_transfer_items(v: &Vec<TransferItem>) -> (r: Vec<TransferItem>)
    ensures
        items_view(r@) == items_view(v@),
{
    let mut r: Vec<TransferItem> = Vec::new();
    let mut i: usize = 0;
    while i < v.len()
        invariant
            i <= v.len(),
            r.len() == i,
            forall|j: int| 0 <= j < i ==> items_view(r@)[j] == items_view(v@)[j],
        decreases v.len() - i,
    {
        let x = &v[i];
        let c = x.1.duplicate();
        let l = x.2.duplicate();
        let t = x.3.duplicate();
        r.push((x.0, c, l, t));
        i += 1;
    }
    assert(items_view(r@) =~= items_view(v@));
    r
}

/// The transfers and balance changes of a block.
///
/// Every balance change has the sender or the receiver of its transfer as owner; those
/// found by algorithm #1 moved the balance by the transfer's value within one wei; the
/// balance changes are numbered from 0 and their versions grow strictly.
pub fn map_events(clock: Clock, block: Block) -> (r: Events)
    requires
        block.transaction_traces.len() <= u32::MAX,
        block_transfers(trxs_view(block.transaction_traces@)).len() > 0
            ==> clock.timestamp is Some,
        forall|k: int| 0 <= k < block_transfers(trxs_view(block.transaction_traces@)).len()
            ==> preimages_ok((#[trigger] block_transfers(trxs_view(block.transaction_traces@))[k]).1.keccak_preimages),
        balance_changes_of(
            trxs_view(block.transaction_traces@),
            block_transfers(trxs_view(block.transaction_traces@)),
        ).len() <= u32::MAX,
    ensures
        ({
            let trxs = trxs_view(block.transaction_traces@);
            let items = block_transfers(trxs);
            let changes = balance_changes_of(trxs, items);
            &&& r.transfers.len() == items.len()
            &&& forall|k: int| 0 <= k < items.len() ==> is_transfer_record(#[trigger] r.transfers@[k], clock, trxs[items[k].0 as int], items[k])
            &&& r.balance_changes.len() == changes.len()
            &&& forall|k: int| 0 <= k < changes.len() ==> is_balance_change_record(#[trigger] r.balance_changes@[k], clock, trxs[changes[k].0 as int], changes[k], k as u32)
            &&& forall|k: int| 0 <= k < changes.len() ==> balance_item_ok(#[trigger] changes[k])
            &&& forall|k: int| 0 <= k < r.balance_changes.len() ==> (#[trigger] r.balance_changes@[k]).owner@ == r.balance_changes@[k].from@
                || r.balance_changes@[k].owner@ == r.balance_changes@[k].to@
            &&& forall|a: int, b: int| 0 <= a < b < r.balance_changes.len() ==> r.balance_changes@[a].version < r.balance_changes@[b].version
        }),
{
    let ghost trxs = trxs_view(block.transaction_traces@);
    let transfers = iter_transfers(&block);
    let ghost items = items_view(transfers@);
    let copies = copy_transfer_items(&transfers);
    proof {
        assert forall|k: int| 0 <= k < copies.len() implies (#[trigger] copies@[k]).0 < block.transaction_traces.len() && preimages_ok(copies@[k].1@.keccak_preimages) by {
            assert(items_view(copies@)[k] == items[k]);
            assert(transfer_item_ok(trxs, items[k]));
        }
    }
    let balance_changes = iter_balance_changes(&block, copies);
    let ghost changes = balance_items_view(balance_changes@);
    proof {
        lemma_balance_changes_ok(trxs, items);
        assert forall|k: int| 0 <= k < transfers.len() implies (#[trigger] transfers@[k]).0 < block.transaction_traces.len() && transfers@[k].2.topics.len() > 0 by {
            assert(items[k] == (transfers@[k].0, transfers@[k].1@, transfers@[k].2@, transfers@[k].3@));
            assert(transfer_item_ok(trxs, items[k]));
        }
        assert forall|k: int| 0 <= k < balance_changes.len() implies (#[trigger] balance_changes@[k]).0 < block.transaction_traces.len() by {
            assert(changes[k].0 == balance_changes@[k].0);
            assert(balance_changes_of(trxs, items)[k] == changes[k]);
            lemma_balance_changes_in_range(trxs, items, k);
        }
        if items.len() == 0 {
            assert(balance_changes_of(trxs, items) == Seq::<BalanceItemView>::empty());
        }
    }
    let transfer_records = map_transfers(&clock, &block, transfers);
    let balance_change_records = map_balance_changes(&clock, &block, balance_changes);
    let r = Events { transfers: transfer_records, balance_changes: balance_change_records };
    proof {
        assert forall|k: int| 0 <= k < r.balance_changes.len() implies (#[trigger] r.balance_changes@[k]).owner@ == r.balance_changes@[k].from@
            || r.balance_changes@[k].owner@ == r.balance_changes@[k].to@ by {
            assert(balance_item_ok(changes[k]));
        }
        assert forall|k: int| 0 <= k < items.len() implies trxs[items[k].0 as int] == block.transaction_traces@[items[k].0 as int]@ by {
            assert(transfer_item_ok(trxs, items[k]));
        }
    }
    r
}

/// The transaction index of every balance change found for transfers of the block is an
/// index of the block's transactions.
proof fn lemma_balance_changes_in_range(trxs: Seq<TransactionTraceView>, items: Seq<TransferItemView>, k: int)
    requires
        forall|j: int| 0 <= j < items.len() ==> (#[trigger] items[j]).0 < trxs.len(),
        0 <= k < balance_changes_of(trxs, items).len(),
    ensures
        balance_changes_of(trxs, items)[k].0 < trxs.len(),
    decreases items.len(),
{
    let a = balance_changes_of(trxs, items.drop_last());
    let x = items.last();
    let m = items_map(items);
    let b = item_balance_changes(trxs, x, m);
    assert(balance_changes_of(trxs, items) == a + b);
    if k < a.len() {
        assert forall|j: int| 0 <= j < items.drop_last().len() implies (#[trigger] items.drop_last()[j]).0 < trxs.len() by {
            assert(items.drop_last()[j] == items[j]);
        }
        lemma_balance_changes_in_range(trxs, items.drop_last(), k);
        assert((a + b)[k] == a[k]);
    } else {
        let j = k - a.len();
        assert((a + b)[k] == b[j]);
        assert(items[items.len() - 1].0 < trxs.len());
        let f1 = tag_found(x, algorithm1(x.1.storage_changes, x.3, m));
        let f2 = tag_found(x, algorithm2(child_calls_of(trxs[x.0 as int].calls, x.1.index), x.3, m));
        if j < f1.len() {
            assert(b[j] == f1[j]);
        } else {
            assert(b[j] == f2[j - f1.len()]);
        }
    }
}

} // verus!
