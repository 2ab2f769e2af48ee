//! ERC-20 balances read from storage changes, in the form that ignores fishing transfers
//! and keeps, for each contract and owner, only the last balance change of a block.
use crate::abi::{decode_transfer, Transfer as TransferEvent, TransferView as TransferEventView};
use crate::algorithms::algorithm2_child_calls::get_all_child_call_storage_changes;
use crate::algorithms::algorithm_call::algorithm1_owner;
use crate::algorithms::algorithm_child_calls::all_storage_changes;
use crate::bignum::{be_value, eq, from_unsigned_bytes_be, int_text, to_decimal_string, BigNum};
use crate::eth::{
    copy_bytes, storage_changes_view, trxs_view, Block, Call, CallView, Log, LogView,
    StorageChange, StorageChangeView, TransactionTrace, TransactionTraceView, STATUS_SUCCEEDED,
};
use crate::keccak_map::{bytes_eq, StorageKeyToAddressMap};
use crate::logs::{call_logs_view, get_logs_with_calls, logs_with_calls, CallLogView};
use crate::maps::{items_map, items_view, TransferItem, TransferItemView};
use crate::native::Algorithm;
use crate::utils::{
    addresses_for_storage_keys, child_calls_of, is_erc20_valid_address, is_erc20_valid_balance,
    preimages_ok, valid_balance,
};
use vstd::prelude::*;

verus! {

/// Whether neither the call nor any of its child calls changed storage: the transfer
/// such a call emits is a fishing transfer.
pub open spec fn is_fishing(trx: TransactionTraceView, call: CallView) -> bool {
    call.storage_changes.len() + all_storage_changes(child_calls_of(trx.calls, call.index)).len() == 0
}

/// The transfer of a log that is kept: it decodes, moves a non-zero value and its call is
/// no fishing call.
pub open spec fn erc20_transfer(
    trx: TransactionTraceView,
    call: CallView,
    log: LogView,
) -> Option<TransferEventView> {
    match decode_transfer(log) {
        Some(t) => if t.value == 0 || is_fishing(trx, call) {
            None
        } else {
            Some(t)
        },
        None => None,
    }
}

/// Number of storage changes that the child calls of `original` made.
pub fn count_all_child_call_storage_changes(original: &Call, trx: &TransactionTrace) -> (r: usize)
    ensures
        r == all_storage_changes(child_calls_of(trx@.calls, original.index)).len(),
{
    let changes = get_all_child_call_storage_changes(original, trx);
    changes.len()
}

/// Whether the call is a fishing call: neither it nor its child calls changed storage.
pub fn is_fishing_transfer(trx: &TransactionTrace, call: &Call) -> (r: bool)
    ensures
        r == is_fishing(trx@, call@),
{
    let children = count_all_child_call_storage_changes(call, trx);
    call.storage_changes.len() == 0 && children == 0
}

/// The ERC-20 transfer of a log, unless its value is zero or its call is a fishing call.
pub fn get_erc20_transfer(trx: &TransactionTrace, call: &Call, log: &Log) -> (r: Option<TransferEvent>)
    ensures
        match (r, erc20_transfer(trx@, call@, log@)) {
            (Some(t), Some(v)) => t@ == v,
            (None, None) => true,
            _ => false,
        },
{
    let transfer = match TransferEvent::match_and_decode(log) {
        Some(t) => t,
        None => return None,
    };
    if eq(&transfer.value, &BigNum::zero()) {
        return None;
    }
    if is_fishing_transfer(trx, call) {
        return None;
    }
    Some(transfer)
}

/// The address that the map holds for the key of the storage change.
pub fn get_keccak_address<'a>(
    keccak_address_map: &'a StorageKeyToAddressMap,
    storage_change: &StorageChange,
) -> (r: Option<&'a Vec<u8>>)
    requires
        keccak_address_map.wf(),
    ensures
        r is Some <==> keccak_address_map@.contains_key(storage_change.key@),
        r matches Some(v) ==> v@ == keccak_address_map@[storage_change.key@],
{
    keccak_address_map.get(storage_change.key.as_slice())
}

/// The owner of a storage change: the map knows its key, the owner is the transfer's
/// sender or receiver, and the balance moves by the transfer's value within one unit.
pub fn get_owner_from_erc20_balance_change(
    transfer: &TransferEvent,
    storage_change: &StorageChange,
    keccak_address_map: &StorageKeyToAddressMap,
) -> (r: Option<Vec<u8>>)
    requires
        keccak_address_map.wf(),
    ensures
        match (r, algorithm1_owner(transfer@, keccak_address_map@, storage_change@)) {
            (Some(o), Some(v)) => o@ == v,
            (None, None) => true,
            _ => false,
        },
{
    let owner = match get_keccak_address(keccak_address_map, storage_change) {
        Some(o) => o,
        None => return None,
    };
    if !is_erc20_valid_address(owner, transfer) {
        return None;
    }
    if !is_erc20_valid_balance(transfer, storage_change) {
        return None;
    }
    Some(copy_bytes(owner))
}

/// The storage changes that have an owner, in order, each with its owner and `alg`.
pub open spec fn matched_changes(
    scs: Seq<StorageChangeView>,
    transfer: TransferEventView,
    map: Map<Seq<u8>, Seq<u8>>,
    alg: Algorithm,
) -> Seq<(Seq<u8>, StorageChangeView, Algorithm)>
    decreases scs.len(),
{
    if scs.len() == 0 {
        Seq::empty()
    } else {
        let rest = matched_changes(scs.drop_last(), transfer, map, alg);
        match algorithm1_owner(transfer, map, scs.last()) {
            Some(o) => rest.push((o, scs.last(), alg)),
            None => rest,
        }
    }
}

/// The balance changes found for a transfer: those of its own call, then those of the
/// child calls of that call.
pub open spec fn found_changes(
    trx: TransactionTraceView,
    call: CallView,
    transfer: TransferEventView,
    map: Map<Seq<u8>, Seq<u8>>,
) -> Seq<(Seq<u8>, StorageChangeView, Algorithm)> {
    matched_changes(call.storage_changes, transfer, map, Algorithm::Call) + matched_changes(
        all_storage_changes(child_calls_of(trx.calls, call.index)),
        transfer,
        map,
        Algorithm::ChildCalls,
    )
}

/// Contents of a list of found balance changes.
pub open spec fn matches_view(v: Seq<(Vec<u8>, StorageChange, Algorithm)>) -> Seq<
    (Seq<u8>, StorageChangeView, Algorithm),
> {
    v.map_values(|x: (Vec<u8>, StorageChange, Algorithm)| (x.0@, x.1@, x.2))
}

/// Appends the storage changes of `scs` that have an owner.
fn push_matched(
    out: &mut Vec<(Vec<u8>, StorageChange, Algorithm)>,
    scs: &Vec<StorageChange>,
    transfer: &TransferEvent,
    keccak_address_map: &StorageKeyToAddressMap,
    alg: Algorithm,
)
    requires
        keccak_address_map.wf(),
    ensures
        matches_view(final(out)@) == matches_view(old(out)@) + matched_changes(
            storage_changes_view(scs@),
            transfer@,
            keccak_address_map@,
            alg,
        ),
{
    let ghost sv = storage_changes_view(scs@);
    let ghost start = matches_view(out@);
    let mut i: usize = 0;
    while i < scs.len()
        invariant
            keccak_address_map.wf(),
            sv == storage_changes_view(scs@),
            i <= scs.len(),
            matches_view(out@) == start + matched_changes(sv.subrange(0, i as int), transfer@, keccak_address_map@, alg),
        decreases scs.len() - i,
    {
        proof {
            assert(sv.subrange(0, i + 1).drop_last() =~= sv.subrange(0, i as int));
            assert(sv[i as int] == scs@[i as int]@);
        }
        let ghost before = out@;
        match get_owner_from_erc20_balance_change(transfer, &scs[i], keccak_address_map) {
            Some(owner) => {
                let ghost o = owner@;
                out.push((owner, scs[i].duplicate(), alg));
                proof {
                    assert(matches_view(out@) =~= matches_view(before).push((o, sv[i as int], alg)));
                }
            },
            None => {},
        }
        i += 1;
    }
    assert(sv.subrange(0, scs.len() as int) =~= sv);
}

/// The balance changes of a transfer: algorithm #1 over the storage changes of its call,
/// then algorithm #2 over those of the child calls.
pub fn iter_balance_changes_algorithms(
    trx: &TransactionTrace,
    call: &Call,
    transfer: &TransferEvent,
    keccak_address_map: &StorageKeyToAddressMap,
) -> (r: Vec<(Vec<u8>, StorageChange, Algorithm)>)
    requires
        keccak_address_map.wf(),
    ensures
        matches_view(r@) == found_changes(trx@, call@, transfer@, keccak_address_map@),
{
    let mut out: Vec<(Vec<u8>, StorageChange, Algorithm)> = Vec::new();
    push_matched(&mut out, &call.storage_changes, transfer, keccak_address_map, Algorithm::Call);
    let children = get_all_child_call_storage_changes(call, trx);
    push_matched(&mut out, &children, transfer, keccak_address_map, Algorithm::ChildCalls);
    assert(matches_view(out@) =~= found_changes(trx@, call@, transfer@, keccak_address_map@));
    out
}

/// Contents of a transfer record.
pub struct TransferView {
    pub transaction_id: Option<Seq<u8>>,
    pub caller: Option<Seq<u8>>,
    pub ordinal: u64,
    pub contract: Seq<u8>,
    pub from: Seq<u8>,
    pub to: Seq<u8>,
    pub value: Seq<char>,
    pub algorithm: Algorithm,
    pub trx_type: i32,
    pub call_type: i32,
}

/// A transfer as this module reports it.
#[derive(Clone, Debug)]
pub struct Transfer {
    // -- transaction --
    pub transaction_id: Option<Vec<u8>>,
    // -- call --
    pub caller: Option<Vec<u8>>,
    // -- ordering --
    pub ordinal: u64,
    // -- transfer --
    pub contract: Vec<u8>,
    pub from: Vec<u8>,
    pub to: Vec<u8>,
    /// Decimal text of the value.
    pub value: String,
    // -- debug --
    pub algorithm: Algorithm,
    pub trx_type: i32,
    pub call_type: i32,
}

impl View for Transfer {
    type V = TransferView;

    open spec fn view(&self) -> TransferView {
        TransferView {
            transaction_id: crate::eth::opt_bytes_view(self.transaction_id),
            caller: crate::eth::opt_bytes_view(self.caller),
            ordinal: self.ordinal,
            contract: self.contract@,
            from: self.from@,
            to: self.to@,
            value: self.value@,
            algorithm: self.algorithm,
            trx_type: self.trx_type,
            call_type: self.call_type,
        }
    }
}

/// The record of a transfer.
pub open spec fn transfer_record(
    trx: TransactionTraceView,
    call: CallView,
    log: LogView,
    transfer: TransferEventView,
    algorithm: Algorithm,
) -> TransferView {
    TransferView {
        transaction_id: Some(trx.hash),
        caller: Some(call.caller),
        ordinal: log.ordinal,
        contract: log.address,
        from: transfer.from,
        to: transfer.to,
        value: int_text(transfer.value),
        algorithm,
        trx_type: trx.trx_type,
        call_type: 0,
    }
}

/// The record of a transfer found in `log`.
pub fn to_transfer(
    trx: &TransactionTrace,
    call: &Call,
    log: &Log,
    transfer: &TransferEvent,
    algorithm: Algorithm,
) -> (r: Transfer)
    ensures
        r@ == transfer_record(trx@, call@, log@, transfer@, algorithm),
        r.from@ == transfer.from@,
        r.to@ == transfer.to@,
        r.contract@ == log.address@,
{
    Transfer {
        transaction_id: Some(copy_bytes(&trx.hash)),
        caller: Some(copy_bytes(&call.caller)),
        ordinal: log.ordinal,
        contract: copy_bytes(&log.address),
        from: copy_bytes(&transfer.from),
        to: copy_bytes(&transfer.to),
        value: to_decimal_string(&transfer.value),
        algorithm,
        trx_type: trx.trx_type,
        call_type: 0,
    }
}

/// Contents of a balance change record.
pub struct BalanceChangeView {
    pub transaction_id: Option<Seq<u8>>,
    pub caller: Option<Seq<u8>>,
    pub ordinal: Option<u64>,
    pub contract: Seq<u8>,
    pub address: Seq<u8>,
    pub old_balance: Option<Seq<char>>,
    pub new_balance: Seq<char>,
    pub algorithm: Algorithm,
    pub trx_type: Option<i32>,
    pub call_type: Option<i32>,
    pub reason: Option<i32>,
}

/// A balance change as this module reports it.
#[derive(Clone, Debug)]
pub struct BalanceChange {
    // -- transaction --
    pub transaction_id: Option<Vec<u8>>,
    // -- call --
    pub caller: Option<Vec<u8>>,
    // -- ordering --
    pub ordinal: Option<u64>,
    // -- balance change --
    pub contract: Vec<u8>,
    /// The owner of the balance.
    pub address: Vec<u8>,
    pub old_balance: Option<String>,
    pub new_balance: String,
    // -- debug --
    pub algorithm: Algorithm,
    pub trx_type: Option<i32>,
    pub call_type: Option<i32>,
    pub reason: Option<i32>,
}

/// Contents of an optional text.
pub open spec fn opt_text_view(v: Option<String>) -> Option<Seq<char>> {
    match v {
        Some(s) => Some(s@),
        None => None,
    }
}

impl View for BalanceChange {
    type V = BalanceChangeView;

    open spec fn view(&self) -> BalanceChangeView {
        BalanceChangeView {
            transaction_id: crate::eth::opt_bytes_view(self.transaction_id),
            caller: crate::eth::opt_bytes_view(self.caller),
            ordinal: self.ordinal,
            contract: self.contract@,
            address: self.address@,
            old_balance: opt_text_view(self.old_balance),
            new_balance: self.new_balance@,
            algorithm: self.algorithm,
            trx_type: self.trx_type,
            call_type: self.call_type,
            reason: self.reason,
        }
    }
}

/// The record of a balance change: balances are read as unsigned big-endian values, and
/// a change that does not move by the transfer's value is marked as such.
pub open spec fn balance_change_record(
    trx: TransactionTraceView,
    call: CallView,
    address: Seq<u8>,
    transfer: TransferEventView,
    sc: StorageChangeView,
    algorithm: Algorithm,
) -> BalanceChangeView {
    BalanceChangeView {
        transaction_id: Some(trx.hash),
        caller: Some(call.caller),
        ordinal: Some(sc.ordinal),
        contract: sc.address,
        address,
        old_balance: Some(int_text(be_value(sc.old_value) as int)),
        new_balance: int_text(be_value(sc.new_value) as int),
        algorithm: if valid_balance(transfer, sc) {
            algorithm
        } else {
            Algorithm::BalanceNotMatchTransfer
        },
        trx_type: Some(trx.trx_type),
        call_type: Some(call.call_type),
        reason: None,
    }
}

/// The record of the balance change that a storage change makes for `address`.
pub fn to_balance_change(
    trx: &TransactionTrace,
    call: &Call,
    address: Vec<u8>,
    transfer: &TransferEvent,
    storage_change: &StorageChange,
    algorithm: Algorithm,
) -> (r: BalanceChange)
    ensures
        r@ == balance_change_record(trx@, call@, address@, transfer@, storage_change@, algorithm),
{
    let old_balance = from_unsigned_bytes_be(storage_change.old_value.as_slice());
    let new_balance = from_unsigned_bytes_be(storage_change.new_value.as_slice());
    let algorithm = if is_erc20_valid_balance(transfer, storage_change) {
        algorithm
    } else {
        Algorithm::BalanceNotMatchTransfer
    };
    BalanceChange {
        transaction_id: Some(copy_bytes(&trx.hash)),
        caller: Some(copy_bytes(&call.caller)),
        ordinal: Some(storage_change.ordinal),
        contract: copy_bytes(&storage_change.address),
        address,
        old_balance: Some(to_decimal_string(&old_balance)),
        new_balance: to_decimal_string(&new_balance),
        algorithm,
        trx_type: Some(trx.trx_type),
        call_type: Some(call.call_type),
        reason: None,
    }
}

/// Whether two balance changes concern the same contract and owner.
pub open spec fn same_holder(a: BalanceChangeView, b: BalanceChangeView) -> bool {
    a.contract == b.contract && a.address == b.address
}

/// No two balance changes of the list concern the same contract and owner.
pub open spec fn holders_distinct(d: Seq<BalanceChangeView>) -> bool {
    forall|a: int, b: int| 0 <= a < b < d.len() ==> !same_holder(#[trigger] d[a], #[trigger] d[b])
}

/// Records `x` in a list of balance changes: it replaces the change of the same contract
/// and owner, or is appended when there is none.
pub open spec fn record_last(d: Seq<BalanceChangeView>, x: BalanceChangeView) -> Seq<BalanceChangeView> {
    if exists|i: int| 0 <= i < d.len() && same_holder(#[trigger] d[i], x) {
        d.update(choose|i: int| 0 <= i < d.len() && same_holder(#[trigger] d[i], x), x)
    } else {
        d.push(x)
    }
}

/// The balance changes of a list, keeping for each contract and owner only the last one,
/// at the place where that contract and owner first occur.
pub open spec fn keep_last(s: Seq<BalanceChangeView>) -> Seq<BalanceChangeView>
    decreases s.len(),
{
    if s.len() == 0 {
        Seq::empty()
    } else {
        record_last(keep_last(s.drop_last()), s.last())
    }
}

proof fn lemma_record_last(d: Seq<BalanceChangeView>, x: BalanceChangeView)
    requires
        holders_distinct(d),
    ensures
        holders_distinct(record_last(d, x)),
        forall|i: int| 0 <= i < record_last(d, x).len() ==> {
            ||| #[trigger] record_last(d, x)[i] == x
            ||| (i < d.len() && record_last(d, x)[i] == d[i] && !same_holder(d[i], x))
        },
        exists|i: int| 0 <= i < record_last(d, x).len() && #[trigger] record_last(d, x)[i] == x,
        forall|j: int| #![trigger d[j]] 0 <= j < d.len() ==> exists|i: int|
            0 <= i < record_last(d, x).len() && same_holder(#[trigger] record_last(d, x)[i], d[j]),
{
    let r = record_last(d, x);
    if exists|i: int| 0 <= i < d.len() && same_holder(#[trigger] d[i], x) {
        let c = choose|i: int| 0 <= i < d.len() && same_holder(#[trigger] d[i], x);
        assert(r == d.update(c, x));
        assert(r[c] == x);
        assert forall|a: int, b: int| 0 <= a < b < r.len() implies !same_holder(#[trigger] r[a], #[trigger] r[b]) by {
            if a == c {
                assert(!same_holder(d[c], d[b]));
            } else if b == c {
                assert(!same_holder(d[a], d[c]));
            }
        }
        assert forall|i: int| 0 <= i < r.len() implies {
            ||| #[trigger] r[i] == x
            ||| (i < d.len() && r[i] == d[i] && !same_holder(d[i], x))
        } by {
            if i != c {
                if i < c {
                    assert(!same_holder(d[i], d[c]));
                } else {
                    assert(!same_holder(d[c], d[i]));
                }
            }
        }
        assert forall|j: int| #![trigger d[j]] 0 <= j < d.len() implies exists|i: int|
            0 <= i < r.len() && same_holder(#[trigger] r[i], d[j]) by {
            if j == c {
                assert(same_holder(r[c], d[j]));
            } else {
                assert(same_holder(r[j], d[j]));
            }
        }
    } else {
        assert(r == d.push(x));
        assert(r[d.len() as int] == x);
        assert forall|j: int| #![trigger d[j]] 0 <= j < d.len() implies exists|i: int|
            0 <= i < r.len() && same_holder(#[trigger] r[i], d[j]) by {
            assert(same_holder(r[j], d[j]));
        }
    }
}

proof fn lemma_keep_last_distinct(s: Seq<BalanceChangeView>)
    ensures
        holders_distinct(keep_last(s)),
    decreases s.len(),
{
    if s.len() > 0 {
        lemma_keep_last_distinct(s.drop_last());
        lemma_record_last(keep_last(s.drop_last()), s.last());
    }
}

proof fn lemma_keep_last_covers(s: Seq<BalanceChangeView>)
    ensures
        forall|j: int| #![trigger s[j]] 0 <= j < s.len() ==> exists|i: int|
            0 <= i < keep_last(s).len() && same_holder(#[trigger] keep_last(s)[i], s[j]),
    decreases s.len(),
{
    if s.len() > 0 {
        let p = s.drop_last();
        let x = s.last();
        let d = keep_last(p);
        let r = keep_last(s);
        lemma_keep_last_covers(p);
        lemma_keep_last_distinct(p);
        lemma_record_last(d, x);
        assert(r == record_last(d, x));
        let n = s.len() - 1;
        assert forall|j: int| #![trigger s[j]] 0 <= j < s.len() implies exists|i: int|
            0 <= i < r.len() && same_holder(#[trigger] r[i], s[j]) by {
            if j == n {
                let i = choose|i: int| 0 <= i < r.len() && #[trigger] r[i] == x;
                assert(same_holder(r[i], s[j]));
            } else {
                assert(s[j] == p[j]);
                let i0 = choose|i: int| 0 <= i < d.len() && same_holder(#[trigger] d[i], p[j]);
                assert(d[i0] == d[i0]);
                let i1 = choose|i: int| 0 <= i < r.len() && same_holder(#[trigger] r[i], d[i0]);
                assert(same_holder(r[i1], s[j]));
            }
        }
    }
}

/// Whether `s[j]` is the last change of `s` for its contract and owner.
pub open spec fn is_last_of_holder(s: Seq<BalanceChangeView>, j: int) -> bool {
    forall|k: int| j < k < s.len() ==> !same_holder(#[trigger] s[k], s[j])
}

proof fn lemma_keep_last_latest(s: Seq<BalanceChangeView>)
    ensures
        forall|i: int| 0 <= i < keep_last(s).len() ==> exists|j: int|
            0 <= j < s.len() && s[j] == #[trigger] keep_last(s)[i] && is_last_of_holder(s, j),
    decreases s.len(),
{
    if s.len() > 0 {
        let p = s.drop_last();
        let x = s.last();
        let d = keep_last(p);
        let r = keep_last(s);
        lemma_keep_last_latest(p);
        lemma_keep_last_distinct(p);
        lemma_record_last(d, x);
        assert(r == record_last(d, x));
        let n = s.len() - 1;
        assert forall|i: int| 0 <= i < r.len() implies exists|j: int|
            0 <= j < s.len() && s[j] == #[trigger] r[i] && is_last_of_holder(s, j) by {
            if r[i] == x {
                assert(s[n] == r[i]);
                assert(is_last_of_holder(s, n));
            } else {
                assert(i < d.len() && r[i] == d[i] && !same_holder(d[i], x));
                let j = choose|j: int| 0 <= j < p.len() && p[j] == #[trigger] d[i] && is_last_of_holder(p, j);
                assert(s[j] == r[i]);
                assert forall|k: int| j < k < s.len() implies !same_holder(#[trigger] s[k], s[j]) by {
                    if k < n {
                        assert(s[k] == p[k]);
                    } else {
                        assert(s[k] == x);
                    }
                }
                assert(is_last_of_holder(s, j));
            }
        }
    }
}

/// What keeping the last balance change per contract and owner gives: no contract and
/// owner occurs twice; every contract and owner of the list occurs; and each change kept
/// is a change of the list after which the list holds no other change of the same
/// contract and owner.
pub proof fn lemma_keep_last(s: Seq<BalanceChangeView>)
    ensures
        holders_distinct(keep_last(s)),
        forall|j: int| #![trigger s[j]] 0 <= j < s.len() ==> exists|i: int|
            0 <= i < keep_last(s).len() && same_holder(#[trigger] keep_last(s)[i], s[j]),
        forall|i: int| 0 <= i < keep_last(s).len() ==> exists|j: int|
            0 <= j < s.len() && s[j] == #[trigger] keep_last(s)[i] && is_last_of_holder(s, j),
{
    lemma_keep_last_distinct(s);
    lemma_keep_last_covers(s);
    lemma_keep_last_latest(s);
}

/// Contents of a list of balance changes.
pub open spec fn changes_view(v: Seq<BalanceChange>) -> Seq<BalanceChangeView> {
    v.map_values(|b: BalanceChange| b@)
}

/// Contents of a list of transfers.
pub open spec fn transfers_view(v: Seq<Transfer>) -> Seq<TransferView> {
    v.map_values(|t: Transfer| t@)
}

/// Records `bc`, replacing the change of the same contract and owner if there is one.
fn insert_last(out: &mut Vec<BalanceChange>, bc: BalanceChange)
    requires
        holders_distinct(changes_view(old(out)@)),
    ensures
        holders_distinct(changes_view(final(out)@)),
        changes_view(final(out)@) == record_last(changes_view(old(out)@), bc@),
{
    let ghost d = changes_view(out@);
    let ghost x = bc@;
    proof {
        lemma_record_last(d, x);
    }
    let mut i: usize = 0;
    while i < out.len()
        invariant
            d == changes_view(out@),
            d == changes_view(old(out)@),
            x == bc@,
            holders_distinct(d),
            i <= out.len(),
            forall|k: int| 0 <= k < i ==> !same_holder(#[trigger] d[k], x),
        decreases out.len() - i,
    {
        proof {
            assert(d[i as int] == out@[i as int]@);
        }
        if bytes_eq(out[i].contract.as_slice(), bc.contract.as_slice())
            && bytes_eq(out[i].address.as_slice(), bc.address.as_slice()) {
            proof {
                assert(same_holder(d[i as int], x));
                let c = choose|j: int| 0 <= j < d.len() && same_holder(#[trigger] d[j], x);
                if c != i {
                    if c < i {
                        assert(!same_holder(d[c], d[i as int]));
                    } else {
                        assert(!same_holder(d[i as int], d[c]));
                    }
                }
                assert(record_last(d, x) == d.update(i as int, x));
            }
            out.set(i, bc);
            assert(changes_view(out@) =~= d.update(i as int, x));
            assert(changes_view(out@) == record_last(d, x));
            assert(d == changes_view(old(out)@));
            return;
        }
        i += 1;
    }
    out.push(bc);
    assert(changes_view(out@) =~= d.push(x));
}

/// The transfers that a transaction's logs hold and that are kept, in the order of the
/// logs, each with the transaction's index `ti`.
pub open spec fn trx_kept(trx: TransactionTraceView, ti: u32, pairs: Seq<CallLogView>) -> Seq<TransferItemView>
    decreases pairs.len(),
{
    if pairs.len() == 0 {
        Seq::empty()
    } else {
        let rest = trx_kept(trx, ti, pairs.drop_last());
        let p = pairs.last();
        match erc20_transfer(trx, p.0, p.1) {
            Some(t) => rest.push((ti, p.0, p.1, t)),
            None => rest,
        }
    }
}

/// The transfers of a block that the balances keep: for each succeeded transaction, the
/// kept transfers of its logs taken in ordinal order.
pub open spec fn block_items(trxs: Seq<TransactionTraceView>) -> Seq<TransferItemView>
    decreases trxs.len(),
{
    if trxs.len() == 0 {
        Seq::empty()
    } else {
        let t = trxs.last();
        block_items(trxs.drop_last()) + if t.status == STATUS_SUCCEEDED {
            trx_kept(t, (trxs.len() - 1) as u32, logs_with_calls(t))
        } else {
            Seq::empty()
        }
    }
}

proof fn lemma_trx_kept_from(trx: TransactionTraceView, ti: u32, pairs: Seq<CallLogView>)
    ensures
        forall|k: int| 0 <= k < trx_kept(trx, ti, pairs).len() ==> exists|j: int|
            0 <= j < pairs.len() && (#[trigger] trx_kept(trx, ti, pairs)[k]).2 == pairs[j].1,
    decreases pairs.len(),
{
    if pairs.len() > 0 {
        let p = pairs.drop_last();
        lemma_trx_kept_from(trx, ti, p);
        let r = trx_kept(trx, ti, pairs);
        let q = trx_kept(trx, ti, p);
        assert forall|k: int| 0 <= k < r.len() implies exists|j: int| 0 <= j < pairs.len() && (#[trigger] r[k]).2 == pairs[j].1 by {
            if k < q.len() {
                assert(r[k] == q[k]);
                let j = choose|j: int| 0 <= j < p.len() && q[k].2 == p[j].1;
                assert(pairs[j] == p[j]);
            } else {
                assert(r[k].2 == pairs[pairs.len() - 1].1);
            }
        }
    }
}

proof fn lemma_trx_kept_sorted(trx: TransactionTraceView, ti: u32, pairs: Seq<CallLogView>)
    requires
        crate::logs::ordinals_sorted(pairs),
    ensures
        forall|a: int, b: int| 0 <= a < b < trx_kept(trx, ti, pairs).len() ==>
            (#[trigger] trx_kept(trx, ti, pairs)[a]).2.ordinal <= (#[trigger] trx_kept(trx, ti, pairs)[b]).2.ordinal,
    decreases pairs.len(),
{
    if pairs.len() > 0 {
        let p = pairs.drop_last();
        assert(crate::logs::ordinals_sorted(p)) by {
            assert forall|a: int, b: int| 0 <= a < b < p.len() implies (#[trigger] p[a]).1.ordinal <= (#[trigger] p[b]).1.ordinal by {
                assert(p[a] == pairs[a] && p[b] == pairs[b]);
            }
        }
        lemma_trx_kept_sorted(trx, ti, p);
        lemma_trx_kept_from(trx, ti, p);
        let r = trx_kept(trx, ti, pairs);
        let q = trx_kept(trx, ti, p);
        assert forall|a: int, b: int| 0 <= a < b < r.len() implies (#[trigger] r[a]).2.ordinal <= (#[trigger] r[b]).2.ordinal by {
            if b < q.len() {
                assert(r[a] == q[a] && r[b] == q[b]);
            } else {
                assert(r[a] == q[a]);
                let j = choose|j: int| 0 <= j < p.len() && q[a].2 == p[j].1;
                assert(pairs[j] == p[j]);
                assert(pairs[j].1.ordinal <= pairs[pairs.len() - 1].1.ordinal);
            }
        }
    }
}

/// Within a transaction, the kept transfers come in the order of their logs' ordinals.
pub proof fn lemma_transfers_in_ordinal_order(trx: TransactionTraceView, ti: u32)
    ensures
        forall|a: int, b: int| 0 <= a < b < trx_kept(trx, ti, logs_with_calls(trx)).len() ==>
            (#[trigger] trx_kept(trx, ti, logs_with_calls(trx))[a]).2.ordinal
                <= (#[trigger] trx_kept(trx, ti, logs_with_calls(trx))[b]).2.ordinal,
{
    crate::logs::lemma_sort_by_ordinal(crate::logs::call_logs_of(trx.calls));
    lemma_trx_kept_sorted(trx, ti, logs_with_calls(trx));
}

/// The kept transfers of a block: for each succeeded transaction, the ERC-20 transfers of
/// its logs in ordinal order, leaving out zero values, fishing calls and calls whose state
/// was reverted.
pub fn kept_transfers(block: &Block) -> (r: Vec<TransferItem>)
    requires
        block.transaction_traces.len() <= u32::MAX,
    ensures
        items_view(r@) == block_items(trxs_view(block.transaction_traces@)),
        forall|k: int| 0 <= k < r.len() ==> (#[trigger] r@[k]).0 < block.transaction_traces.len(),
{
    let ghost trxs = trxs_view(block.transaction_traces@);
    let mut out: Vec<TransferItem> = Vec::new();
    let mut i: usize = 0;
    while i < block.transaction_traces.len()
        invariant
            trxs == trxs_view(block.transaction_traces@),
            block.transaction_traces.len() <= u32::MAX,
            i <= block.transaction_traces.len(),
            items_view(out@) == block_items(trxs.take(i as int)),
            forall|k: int| 0 <= k < out.len() ==> (#[trigger] out@[k]).0 < i,
        decreases block.transaction_traces.len() - i,
    {
        let trx = &block.transaction_traces[i];
        proof {
            assert(trxs.take(i + 1).drop_last() =~= trxs.take(i as int));
            assert(trxs[i as int] == trx@);
        }
        if trx.status == STATUS_SUCCEEDED {
            let ti = i as u32;
            let pairs = get_logs_with_calls(trx);
            let ghost pv = call_logs_view(pairs@);
            let ghost before = items_view(out@);
            let mut k: usize = 0;
            while k < pairs.len()
                invariant
                    pv == call_logs_view(pairs@),
                    k <= pairs.len(),
                    ti == i,
                    i < block.transaction_traces.len(),
                    items_view(out@) == before + trx_kept(trx@, ti, pv.take(k as int)),
                    forall|j: int| 0 <= j < out.len() ==> (#[trigger] out@[j]).0 <= i,
                decreases pairs.len() - k,
            {
                let pair = &pairs[k];
                proof {
                    assert(pv[k as int] == (pair.0@, pair.1@));
                    assert(pv.take(k + 1).drop_last() =~= pv.take(k as int));
                }
                match get_erc20_transfer(trx, &pair.0, &pair.1) {
                    Some(transfer) => {
                        let ghost prev = items_view(out@);
                        let ghost tv = transfer@;
                        out.push((ti, pair.0.duplicate(), pair.1.duplicate(), transfer));
                        proof {
                            assert(items_view(out@) =~= prev.push((ti, pair.0@, pair.1@, tv)));
                        }
                    },
                    None => {},
                }
                k += 1;
            }
            proof {
                assert(pv.take(pairs.len() as int) =~= pv);
            }
        }
        i += 1;
    }
    assert(trxs.take(block.transaction_traces.len() as int) =~= trxs);
    out
}

/// The transfer records of a list of transfers.
pub open spec fn transfer_records(trxs: Seq<TransactionTraceView>, items: Seq<TransferItemView>) -> Seq<TransferView> {
    items.map_values(|x: TransferItemView| transfer_record(trxs[x.0 as int], x.1, x.2, x.3, Algorithm::Log))
}

/// The balance change records found for one transfer with the map `m`.
pub open spec fn item_changes(
    trxs: Seq<TransactionTraceView>,
    x: TransferItemView,
    m: Map<Seq<u8>, Seq<u8>>,
) -> Seq<BalanceChangeView> {
    balance_records(trxs[x.0 as int], x.1, x.3, m)
}

/// The balance change records of a list of transfers, transfer after transfer, each found
/// with the map of the calls read so far (its own included).
pub open spec fn all_changes(trxs: Seq<TransactionTraceView>, items: Seq<TransferItemView>) -> Seq<BalanceChangeView>
    decreases items.len(),
{
    if items.len() == 0 {
        Seq::empty()
    } else {
        all_changes(trxs, items.drop_last()) + item_changes(trxs, items.last(), items_map(items))
    }
}

/// The balance change records found for a transfer of `call`, with the map `m`.
pub open spec fn balance_records(
    trx: TransactionTraceView,
    call: CallView,
    transfer: TransferEventView,
    m: Map<Seq<u8>, Seq<u8>>,
) -> Seq<BalanceChangeView> {
    found_changes(trx, call, transfer, m).map_values(
        |f: (Seq<u8>, StorageChangeView, Algorithm)| balance_change_record(trx, call, f.0, transfer, f.1, f.2),
    )
}

/// Records each balance change found for the transfer, keeping the last per contract and
/// owner.
fn add_item_changes(
    last: &mut Vec<BalanceChange>,
    trx: &TransactionTrace,
    call: &Call,
    transfer: &TransferEvent,
    keccak_address_map: &StorageKeyToAddressMap,
    Ghost(prev): Ghost<Seq<BalanceChangeView>>,
)
    requires
        keccak_address_map.wf(),
        holders_distinct(changes_view(old(last)@)),
        changes_view(old(last)@) == keep_last(prev),
    ensures
        holders_distinct(changes_view(final(last)@)),
        changes_view(final(last)@) == keep_last(prev + balance_records(trx@, call@, transfer@, keccak_address_map@)),
{
    let found = iter_balance_changes_algorithms(trx, call, transfer, keccak_address_map);
    let ghost ic = balance_records(trx@, call@, transfer@, keccak_address_map@);
    let mut j: usize = 0;
    while j < found.len()
        invariant
            keccak_address_map.wf(),
            j <= found.len(),
            ic == balance_records(trx@, call@, transfer@, keccak_address_map@),
            ic.len() == found.len(),
            matches_view(found@) == found_changes(trx@, call@, transfer@, keccak_address_map@),
            holders_distinct(changes_view(last@)),
            changes_view(last@) == keep_last(prev + ic.subrange(0, j as int)),
        decreases found.len() - j,
    {
        let f = &found[j];
        let bc = to_balance_change(trx, call, copy_bytes(&f.0), transfer, &f.1, f.2);
        proof {
            assert(matches_view(found@)[j as int] == (f.0@, f.1@, f.2));
            assert(bc@ == ic[j as int]);
            let s1 = prev + ic.subrange(0, j + 1);
            assert(s1.drop_last() =~= prev + ic.subrange(0, j as int));
            assert(s1.last() == ic[j as int]);
        }
        insert_last(last, bc);
        j += 1;
    }
    assert(ic.subrange(0, found.len() as int) =~= ic);
}

/// Whether a balance change was found by one of the two algorithms (its balance moved by
/// the transfer's value).
pub open spec fn found_by_algorithm(b: BalanceChangeView) -> bool {
    b.algorithm == Algorithm::Call || b.algorithm == Algorithm::ChildCalls
}

proof fn lemma_matched_valid(scs: Seq<StorageChangeView>, t: TransferEventView, m: Map<Seq<u8>, Seq<u8>>, alg: Algorithm)
    ensures
        forall|k: int| 0 <= k < matched_changes(scs, t, m, alg).len() ==> {
            &&& valid_balance(t, (#[trigger] matched_changes(scs, t, m, alg)[k]).1)
            &&& matched_changes(scs, t, m, alg)[k].2 == alg
        },
    decreases scs.len(),
{
    if scs.len() > 0 {
        lemma_matched_valid(scs.drop_last(), t, m, alg);
        let rest = matched_changes(scs.drop_last(), t, m, alg);
        let all = matched_changes(scs, t, m, alg);
        assert forall|k: int| 0 <= k < all.len() implies {
            &&& valid_balance(t, (#[trigger] all[k]).1)
            &&& all[k].2 == alg
        } by {
            if k < rest.len() {
                assert(all[k] == rest[k]);
            }
        }
    }
}

proof fn lemma_records_found(trx: TransactionTraceView, call: CallView, t: TransferEventView, m: Map<Seq<u8>, Seq<u8>>)
    ensures
        forall|k: int| 0 <= k < balance_records(trx, call, t, m).len() ==> found_by_algorithm(#[trigger] balance_records(trx, call, t, m)[k]),
{
    let a = matched_changes(call.storage_changes, t, m, Algorithm::Call);
    let b = matched_changes(all_storage_changes(child_calls_of(trx.calls, call.index)), t, m, Algorithm::ChildCalls);
    lemma_matched_valid(call.storage_changes, t, m, Algorithm::Call);
    lemma_matched_valid(all_storage_changes(child_calls_of(trx.calls, call.index)), t, m, Algorithm::ChildCalls);
    let f = found_changes(trx, call, t, m);
    assert forall|k: int| 0 <= k < balance_records(trx, call, t, m).len() implies found_by_algorithm(#[trigger] balance_records(trx, call, t, m)[k]) by {
        if k < a.len() {
            assert(f[k] == a[k]);
        } else {
            assert(f[k] == b[k - a.len()]);
        }
    }
}

proof fn lemma_all_changes_found(trxs: Seq<TransactionTraceView>, items: Seq<TransferItemView>)
    ensures
        forall|k: int| 0 <= k < all_changes(trxs, items).len() ==> found_by_algorithm(#[trigger] all_changes(trxs, items)[k]),
    decreases items.len(),
{
    if items.len() > 0 {
        let p = items.drop_last();
        let x = items.last();
        lemma_all_changes_found(trxs, p);
        lemma_records_found(trxs[x.0 as int], x.1, x.3, items_map(items));
        let a = all_changes(trxs, p);
        let b = item_changes(trxs, x, items_map(items));
        assert forall|k: int| 0 <= k < (a + b).len() implies found_by_algorithm(#[trigger] (a + b)[k]) by {
            if k >= a.len() {
                assert((a + b)[k] == b[k - a.len()]);
            }
        }
        assert(all_changes(trxs, items) == a + b);
    }
}

/// Every balance change that the module reports was found by algorithm #1 or #2: none is
/// marked as not matching its transfer.
pub proof fn lemma_reported_changes_match(trxs: Seq<TransactionTraceView>)
    ensures
        forall|k: int| 0 <= k < keep_last(all_changes(trxs, block_items(trxs))).len() ==> found_by_algorithm(
            #[trigger] keep_last(all_changes(trxs, block_items(trxs)))[k],
        ),
{
    let s = all_changes(trxs, block_items(trxs));
    lemma_all_changes_found(trxs, block_items(trxs));
    lemma_keep_last(s);
    assert forall|k: int| 0 <= k < keep_last(s).len() implies found_by_algorithm(#[trigger] keep_last(s)[k]) by {
        let j = choose|j: int| 0 <= j < s.len() && s[j] == #[trigger] keep_last(s)[k] && is_last_of_holder(s, j);
        assert(found_by_algorithm(s[j]));
    }
}

/// The transfers and balance changes of a block, in the form of this module.
#[derive(Clone, Debug)]
pub struct Events {
    pub transfers: Vec<Transfer>,
    pub balance_changes: Vec<BalanceChange>,
}

/// Every call of a kept transfer has Keccak preimages that can be read without fault.
pub open spec fn block_preimages_ok(trxs: Seq<TransactionTraceView>) -> bool {
    forall|k: int| 0 <= k < block_items(trxs).len() ==> preimages_ok(#[trigger] block_items(trxs)[k].1.keccak_preimages)
}

/// Adds the block's transfers (fishing transfers and zero values left out) and, for each
/// contract and owner, the last balance change that the block's transfers made.
pub fn insert_events(block: &Block, events: &mut Events)
    requires
        block.transaction_traces.len() <= u32::MAX,
        block_preimages_ok(trxs_view(block.transaction_traces@)),
    ensures
        transfers_view(final(events).transfers@) == transfers_view(old(events).transfers@) + transfer_records(
            trxs_view(block.transaction_traces@),
            block_items(trxs_view(block.transaction_traces@)),
        ),
        changes_view(final(events).balance_changes@) == changes_view(old(events).balance_changes@) + keep_last(
            all_changes(
                trxs_view(block.transaction_traces@),
                block_items(trxs_view(block.transaction_traces@)),
            ),
        ),
{
    let ghost trxs = trxs_view(block.transaction_traces@);
    let ghost start_transfers = transfers_view(events.transfers@);
    let ghost start_changes = changes_view(events.balance_changes@);
    let items = kept_transfers(block);
    let ghost all = items_view(items@);
    let mut keccak_address_map = StorageKeyToAddressMap::new();
    let mut last: Vec<BalanceChange> = Vec::new();
    let mut i: usize = 0;
    while i < items.len()
        invariant
            trxs == trxs_view(block.transaction_traces@),
            all == items_view(items@),
            all == block_items(trxs),
            forall|k: int| 0 <= k < items.len() ==> (#[trigger] items@[k]).0 < block.transaction_traces.len(),
            block_preimages_ok(trxs),
            i <= items.len(),
            keccak_address_map.wf(),
            keccak_address_map@ == items_map(all.take(i as int)),
            transfers_view(events.transfers@) == start_transfers + transfer_records(trxs, all.take(i as int)),
            changes_view(events.balance_changes@) == start_changes,
            holders_distinct(changes_view(last@)),
            changes_view(last@) == keep_last(all_changes(trxs, all.take(i as int))),
        decreases items.len() - i,
    {
        let item = &items[i];
        let ghost x = all[i as int];
        let ghost before_items = all.take(i as int);
        let ghost after_items = all.take(i + 1);
        proof {
            assert(x == (item.0, item.1@, item.2@, item.3@));
            assert(after_items.drop_last() =~= before_items);
            assert(after_items.last() == x);
            assert(preimages_ok(block_items(trxs)[i as int].1.keccak_preimages));
        }
        let trx = &block.transaction_traces[item.0 as usize];
        proof {
            assert(trxs[item.0 as int] == trx@);
        }
        let ghost before_transfers = transfers_view(events.transfers@);
        let t = to_transfer(trx, &item.1, &item.2, &item.3, Algorithm::Log);
        events.transfers.push(t);
        proof {
            assert(transfers_view(events.transfers@) =~= before_transfers.push(
                transfer_record(trxs[x.0 as int], x.1, x.2, x.3, Algorithm::Log),
            ));
            assert(transfer_records(trxs, after_items) =~= transfer_records(trxs, before_items).push(
                transfer_record(trxs[x.0 as int], x.1, x.2, x.3, Algorithm::Log),
            ));
        }
        keccak_address_map.extend(addresses_for_storage_keys(&item.1));
        proof {
            assert(keccak_address_map@ == items_map(after_items));
        }
        let ghost prev_all = all_changes(trxs, before_items);
        let ghost ic = item_changes(trxs, x, items_map(after_items));
        proof {
            assert(all_changes(trxs, after_items) == prev_all + ic);
        }
        add_item_changes(&mut last, trx, &item.1, &item.3, &keccak_address_map, Ghost(prev_all));
        proof {
            assert(item_changes(trxs, x, keccak_address_map@) == balance_records(trx@, item.1@, item.3@, keccak_address_map@));
        }
        i += 1;
    }
    proof {
        assert(all.take(items.len() as int) =~= all);
    }
    let ghost before = changes_view(events.balance_changes@);
    let ghost added = changes_view(last@);
    events.balance_changes.append(&mut last);
    assert(changes_view(events.balance_changes@) =~= before + added);
}

/// A transfer record names the sender and receiver as its log does: `from` is bytes 12..32
/// of the log's second topic and `to` those of its third; its contract is the log's address
/// and its value the number the log's data holds.
pub proof fn lemma_transfer_record_parties(
    trx: TransactionTraceView,
    call: CallView,
    log: LogView,
    transfer: TransferEventView,
    algorithm: Algorithm,
)
    requires
        decode_transfer(log) == Some(transfer),
    ensures
        transfer_record(trx, call, log, transfer, algorithm).from == log.topics[1].subrange(12, 32),
        transfer_record(trx, call, log, transfer, algorithm).to == log.topics[2].subrange(12, 32),
        transfer_record(trx, call, log, transfer, algorithm).contract == log.address,
        transfer_record(trx, call, log, transfer, algorithm).value == int_text(be_value(log.data) as int),
{
}

proof fn lemma_trx_kept_decoded(trx: TransactionTraceView, ti: u32, pairs: Seq<CallLogView>)
    ensures
        forall|k: int|
            0 <= k < trx_kept(trx, ti, pairs).len() ==> decode_transfer((#[trigger] trx_kept(trx, ti, pairs)[k]).2)
                == Some(trx_kept(trx, ti, pairs)[k].3),
    decreases pairs.len(),
{
    if pairs.len() > 0 {
        lemma_trx_kept_decoded(trx, ti, pairs.drop_last());
    }
}

proof fn lemma_block_items_decoded(trxs: Seq<TransactionTraceView>)
    ensures
        forall|k: int|
            0 <= k < block_items(trxs).len() ==> decode_transfer((#[trigger] block_items(trxs)[k]).2) == Some(
                block_items(trxs)[k].3,
            ),
    decreases trxs.len(),
{
    if trxs.len() > 0 {
        let t = trxs.last();
        let ti = (trxs.len() - 1) as u32;
        lemma_block_items_decoded(trxs.drop_last());
        lemma_trx_kept_decoded(t, ti, logs_with_calls(t));
        let a = block_items(trxs.drop_last());
        let b = if t.status == STATUS_SUCCEEDED {
            trx_kept(t, ti, logs_with_calls(t))
        } else {
            Seq::empty()
        };
        assert forall|k: int| 0 <= k < block_items(trxs).len() implies decode_transfer((#[trigger] block_items(trxs)[k]).2)
            == Some(block_items(trxs)[k].3) by {
            if k < a.len() {
                assert(block_items(trxs)[k] == a[k]);
            } else {
                assert(block_items(trxs)[k] == b[k - a.len()]);
            }
        }
    }
}

/// Every transfer the block reports comes from a `Transfer` log and names its sender and
/// receiver as that log does: `from` is bytes 12..32 of the log's second topic, `to` those
/// of its third, and the contract is the log's address.
pub proof fn lemma_reported_transfer_parties(trxs: Seq<TransactionTraceView>)
    ensures
        transfer_records(trxs, block_items(trxs)).len() == block_items(trxs).len(),
        forall|k: int|
            0 <= k < block_items(trxs).len() ==> {
                let log = (#[trigger] block_items(trxs)[k]).2;
                let r = transfer_records(trxs, block_items(trxs))[k];
                &&& log.topics.len() == 3
                &&& r.from == log.topics[1].subrange(12, 32)
                &&& r.to == log.topics[2].subrange(12, 32)
                &&& r.contract == log.address
                &&& r.ordinal == log.ordinal
            },
{
    lemma_block_items_decoded(trxs);
    let items = block_items(trxs);
    assert forall|k: int| 0 <= k < items.len() implies {
        let log = (#[trigger] items[k]).2;
        let r = transfer_records(trxs, items)[k];
        &&& log.topics.len() == 3
        &&& r.from == log.topics[1].subrange(12, 32)
        &&& r.to == log.topics[2].subrange(12, 32)
        &&& r.contract == log.address
        &&& r.ordinal == log.ordinal
    } by {
        let x = items[k];
        lemma_transfer_record_parties(trxs[x.0 as int], x.1, x.2, x.3, Algorithm::Log);
    }
}

/// The transfers and balance changes of a block: the block's transfers (fishing transfers
/// and zero values left out), and for each contract and owner the last balance change.
pub fn map_events(block: Block) -> (r: Events)
    requires
        block.transaction_traces.len() <= u32::MAX,
        block_preimages_ok(trxs_view(block.transaction_traces@)),
    ensures
        transfers_view(r.transfers@) == transfer_records(
            trxs_view(block.transaction_traces@),
            block_items(trxs_view(block.transaction_traces@)),
        ),
        changes_view(r.balance_changes@) == keep_last(
            all_changes(trxs_view(block.transaction_traces@), block_items(trxs_view(block.transaction_traces@))),
        ),
        holders_distinct(changes_view(r.balance_changes@)),
        forall|k: int| 0 <= k < r.balance_changes.len() ==> found_by_algorithm(#[trigger] changes_view(r.balance_changes@)[k]),
        forall|k: int|
            0 <= k < r.transfers.len() ==> {
                let log = (#[trigger] block_items(trxs_view(block.transaction_traces@))[k]).2;
                &&& r.transfers@[k].from@ == log.topics[1].subrange(12, 32)
                &&& r.transfers@[k].to@ == log.topics[2].subrange(12, 32)
                &&& r.transfers@[k].contract@ == log.address
            },
{
    let mut events = Events { transfers: Vec::new(), balance_changes: Vec::new() };
    insert_events(&block, &mut events);
    proof {
        assert(transfers_view(events.transfers@) =~= transfer_records(
            trxs_view(block.transaction_traces@),
            block_items(trxs_view(block.transaction_traces@)),
        ));
        assert(changes_view(events.balance_changes@) =~= keep_last(
            all_changes(trxs_view(block.transaction_traces@), block_items(trxs_view(block.transaction_traces@))),
        ));
        lemma_keep_last(all_changes(trxs_view(block.transaction_traces@), block_items(trxs_view(block.transaction_traces@))));
        lemma_reported_changes_match(trxs_view(block.transaction_traces@));
        lemma_reported_transfer_parties(trxs_view(block.transaction_traces@));
    }
    events
}

} // verus!
