//! Counts of the balance changes found and of the transfers they explain, for one block
//! and over all blocks.
use crate::eth::Clock;
use crate::pb::erc20_types::{BalanceChange, BalanceChangeStat, BalanceChangeStats, Events, Transfer};
use substreams::scalar::BigDecimal;
use vstd::prelude::*;

verus! {

/// Whether a balance change was found for the log of `t`: one with the same transaction
/// and log index.
pub open spec fn has_matching_change(changes: Seq<BalanceChange>, t: Transfer) -> bool {
    exists|k: int|
        0 <= k < changes.len() && (#[trigger] changes[k]).transaction_id@ == t.transaction_id@
            && changes[k].log_index == t.log_index
}

/// Number of balance changes whose type number is `ty`.
pub open spec fn count_type(changes: Seq<BalanceChange>, ty: i32) -> nat
    decreases changes.len(),
{
    if changes.len() == 0 {
        0
    } else {
        count_type(changes.drop_last(), ty) + (if changes.last().change_type == ty {
            1nat
        } else {
            0nat
        })
    }
}

/// Number of transfers for whose log no balance change was found.
pub open spec fn count_not_matched(changes: Seq<BalanceChange>, transfers: Seq<Transfer>) -> nat
    decreases transfers.len(),
{
    if transfers.len() == 0 {
        0
    } else {
        count_not_matched(changes, transfers.drop_last()) + (if has_matching_change(
            changes,
            transfers.last(),
        ) {
            0nat
        } else {
            1nat
        })
    }
}

proof fn lemma_count_type_bound(changes: Seq<BalanceChange>, ty: i32)
    ensures
        count_type(changes, ty) <= changes.len(),
    decreases changes.len(),
{
    if changes.len() > 0 {
        lemma_count_type_bound(changes.drop_last(), ty);
    }
}

proof fn lemma_count_not_matched_bound(changes: Seq<BalanceChange>, transfers: Seq<Transfer>)
    ensures
        count_not_matched(changes, transfers) <= transfers.len(),
    decreases transfers.len(),
{
    if transfers.len() > 0 {
        lemma_count_not_matched_bound(changes, transfers.drop_last());
    }
}

/// The five counters kept for balance changes and transfers.
#[derive(Clone, Copy, Debug)]
pub struct StatCounts {
    pub balance_changes_type_1: u64,
    pub balance_changes_type_2: u64,
    pub balance_changes: u64,
    pub transfers: u64,
    pub transfers_not_matched: u64,
}

/// Number of balance changes of type `ty`.
fn count_changes_of_type(changes: &Vec<BalanceChange>, ty: i32) -> (r: u64)
    ensures
        r == count_type(changes@, ty),
{
    let mut n: u64 = 0;
    let mut i: usize = 0;
    while i < changes.len()
        invariant
            i <= changes.len(),
            n == count_type(changes@.take(i as int), ty),
        decreases changes.len() - i,
    {
        proof {
            assert(changes@.take(i + 1).drop_last() =~= changes@.take(i as int));
            lemma_count_type_bound(changes@.take(i as int), ty);
        }
        if changes[i].change_type == ty {
            n = n + 1;
        }
        i += 1;
    }
    assert(changes@.take(changes.len() as int) =~= changes@);
    n
}

/// Whether a balance change was found for the log of `t`.
fn log_matched(changes: &Vec<BalanceChange>, t: &Transfer) -> (r: bool)
    ensures
        r == has_matching_change(changes@, *t),
{
    let mut i: usize = 0;
    while i < changes.len()
        invariant
            i <= changes.len(),
            forall|k: int|
                0 <= k < i ==> !((#[trigger] changes@[k]).transaction_id@ == t.transaction_id@
                    && changes@[k].log_index == t.log_index),
        decreases changes.len() - i,
    {
        if changes[i].transaction_id == t.transaction_id && changes[i].log_index == t.log_index {
            return true;
        }
        i += 1;
    }
    false
}

/// Number of transfers for whose log no balance change was found.
fn count_transfers_not_matched(changes: &Vec<BalanceChange>, transfers: &Vec<Transfer>) -> (r: u64)
    ensures
        r == count_not_matched(changes@, transfers@),
{
    let mut n: u64 = 0;
    let mut i: usize = 0;
    while i < transfers.len()
        invariant
            i <= transfers.len(),
            n == count_not_matched(changes@, transfers@.take(i as int)),
        decreases transfers.len() - i,
    {
        proof {
            assert(transfers@.take(i + 1).drop_last() =~= transfers@.take(i as int));
            lemma_count_not_matched_bound(changes@, transfers@.take(i as int));
        }
        if !log_matched(changes, &transfers[i]) {
            n = n + 1;
        }
        i += 1;
    }
    assert(transfers@.take(transfers.len() as int) =~= transfers@);
    n
}

/// The counters that one block adds to the store: every balance change, those of each
/// type, every transfer, and the transfers for whose log no balance change was found.
pub open spec fn block_counts(events: Events) -> StatCounts {
    StatCounts {
        balance_changes_type_1: count_type(events.balance_changes@, 1) as u64,
        balance_changes_type_2: count_type(events.balance_changes@, 2) as u64,
        balance_changes: events.balance_changes.len() as u64,
        transfers: events.transfers.len() as u64,
        transfers_not_matched: count_not_matched(events.balance_changes@, events.transfers@) as u64,
    }
}

/// The amounts that a block adds to the store's five counters (the store itself is
/// written by the caller).
pub fn store_valid_balance_changes(events: &Events) -> (r: StatCounts)
    ensures
        r == block_counts(*events),
        r.balance_changes_type_1 + r.balance_changes_type_2 <= r.balance_changes,
        r.transfers_not_matched <= r.transfers,
{
    proof {
        lemma_count_type_bound(events.balance_changes@, 1);
        lemma_count_type_bound(events.balance_changes@, 2);
        lemma_count_types_disjoint(events.balance_changes@);
        lemma_count_not_matched_bound(events.balance_changes@, events.transfers@);
    }
    StatCounts {
        balance_changes_type_1: count_changes_of_type(&events.balance_changes, 1),
        balance_changes_type_2: count_changes_of_type(&events.balance_changes, 2),
        balance_changes: events.balance_changes.len() as u64,
        transfers: events.transfers.len() as u64,
        transfers_not_matched: count_transfers_not_matched(&events.balance_changes, &events.transfers),
    }
}

proof fn lemma_count_types_disjoint(changes: Seq<BalanceChange>)
    ensures
        count_type(changes, 1) + count_type(changes, 2) <= changes.len(),
    decreases changes.len(),
{
    if changes.len() > 0 {
        lemma_count_types_disjoint(changes.drop_last());
    }
}

/// What `BigDecimal` gives for `1 - not_matched / transfers` rounded to four digits of
/// precision and written out.
pub uninterp spec fn complement_rate_text(not_matched: u64, transfers: u64) -> Seq<char>;

/// Computes with `substreams::scalar::BigDecimal`: `1 - not_matched / transfers`, then
/// `with_prec(4)` and `to_string`; the text depends on the two counts alone. `BigDecimal`
/// division by zero panics, so `transfers` is positive.
#[verifier::external_body]
fn complement_rate(not_matched: u64, transfers: u64) -> (r: String)
    requires
        transfers > 0,
    ensures
        r@ == complement_rate_text(not_matched, transfers),
{
    (BigDecimal::from(1) - BigDecimal::from(not_matched) / BigDecimal::from(transfers)).with_prec(4).to_string()
}

/// Calls `BigDecimal::from(1).with_prec(4).to_string()`: `with_prec` pads the one digit
/// of `1` to four (value 1000 at scale 3), which `Display` writes as `1.000`.
#[verifier::external_body]
fn unit_rate() -> (r: String)
    ensures
        r@ == "1.000"@,
{
    BigDecimal::from(1).with_prec(4).to_string()
}

/// The share of transfers explained by a balance change, as text: one when there are no
/// transfers.
pub open spec fn valid_rate_text(not_matched: u64, transfers: u64) -> Seq<char> {
    if transfers > 0 {
        complement_rate_text(not_matched, transfers)
    } else {
        "1.000"@
    }
}

fn valid_rate(not_matched: u64, transfers: u64) -> (r: String)
    ensures
        r@ == valid_rate_text(not_matched, transfers),
{
    if transfers > 0 {
        complement_rate(not_matched, transfers)
    } else {
        unit_rate()
    }
}

/// The statistics of one set of counters.
pub open spec fn is_stat_of(s: BalanceChangeStat, type1: u64, type2: u64, changes: u64, transfers: u64, not_matched: u64) -> bool {
    &&& s.type1_balance_changes == type1
    &&& s.type2_balance_changes == type2
    &&& s.balance_changes == changes
    &&& s.transfers == transfers
    &&& s.transfers_not_matched == not_matched
    &&& s.valid_rate@ == valid_rate_text(not_matched, transfers)
}

fn stat_of(type1: u64, type2: u64, changes: u64, transfers: u64, not_matched: u64) -> (r: BalanceChangeStat)
    ensures
        is_stat_of(r, type1, type2, changes, transfers, not_matched),
{
    BalanceChangeStat {
        type1_balance_changes: type1,
        type2_balance_changes: type2,
        balance_changes: changes,
        transfers,
        transfers_not_matched: not_matched,
        valid_rate: valid_rate(not_matched, transfers),
    }
}

/// Statistics of the block and of all blocks so far. The current block counts the
/// balance changes of type one and two (those two alone make up its balance changes),
/// its transfers and the transfers whose log no balance change matches; `totals` holds
/// the store's counters as read by the caller.
pub fn balance_change_stats(clock: &Clock, events: &Events, totals: &StatCounts) -> (r: BalanceChangeStats)
    ensures
        r.current is Some,
        is_stat_of(
            r.current->0,
            count_type(events.balance_changes@, 1) as u64,
            count_type(events.balance_changes@, 2) as u64,
            (count_type(events.balance_changes@, 1) + count_type(events.balance_changes@, 2)) as u64,
            events.transfers.len() as u64,
            count_not_matched(events.balance_changes@, events.transfers@) as u64,
        ),
        r.total is Some,
        is_stat_of(
            r.total->0,
            totals.balance_changes_type_1,
            totals.balance_changes_type_2,
            totals.balance_changes,
            totals.transfers,
            totals.transfers_not_matched,
        ),
        r.block_number == clock.number,
        r.timestamp == clock.timestamp,
{
    let type1 = count_changes_of_type(&events.balance_changes, 1);
    let type2 = count_changes_of_type(&events.balance_changes, 2);
    proof {
        lemma_count_types_disjoint(events.balance_changes@);
        assert(type1 + type2 <= events.balance_changes.len());
    }
    let transfers = events.transfers.len() as u64;
    let not_matched = count_transfers_not_matched(&events.balance_changes, &events.transfers);
    let current = stat_of(type1, type2, type1 + type2, transfers, not_matched);
    let total = stat_of(
        totals.balance_changes_type_1,
        totals.balance_changes_type_2,
        totals.balance_changes,
        totals.transfers,
        totals.transfers_not_matched,
    );
    BalanceChangeStats {
        current: Some(current),
        total: Some(total),
        block_number: clock.number,
        timestamp: clock.timestamp,
    }
}

} // verus!
