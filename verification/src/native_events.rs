//! Native (ETH) transfers and balance changes of a block, in the order the native-balances
//! module reports them. The module keeps the balance changes that pass its validity test;
//! the test's answers for the candidates are given to `insert_events`, one per candidate.
use crate::eth::{
    calls_view, native_changes_view, opt_bytes_view, trxs_view, Block, Call, CallView,
    NativeBalanceChange, NativeBalanceChangeView, TransactionTrace, TransactionTraceView,
    STATUS_FAILED, STATUS_REVERTED, STATUS_SUCCEEDED,
};
use crate::native::{
    block_reward_transfer, call_transfer, fee_transfers, get_transfer_from_block_reward,
    get_transfer_from_call, get_transfer_from_transaction, get_transfer_from_transaction_fee,
    is_failed_transaction, is_gas_balance_change, is_gas_reason, opt_value, transaction_transfer,
    transfers_view, value_or_zero, Algorithm, TransferStruct, TransferStructView,
};
use vstd::prelude::*;

verus! {

/// A native transfer with where it comes from: the index of its transaction (none for a
/// block reward) and of its call (none for a transaction-level transfer).
#[derive(Clone, Debug)]
pub struct NativeTransfer {
    pub transaction: Option<usize>,
    pub call: Option<usize>,
    pub transfer: TransferStruct,
}

/// Contents of a native transfer with its origin.
pub type NativeTransferView = (Option<usize>, Option<usize>, TransferStructView);

/// Contents of a list of native transfers.
pub open spec fn native_transfers_view(v: Seq<NativeTransfer>) -> Seq<NativeTransferView> {
    v.map_values(|t: NativeTransfer| (t.transaction, t.call, t.transfer@))
}

/// Where a balance change was recorded.
#[derive(Clone, Copy, Debug, PartialEq, Eq, Structural)]
pub enum ChangeSource {
    /// At block level.
    Block,
    /// In the system call with this index.
    SystemCall(usize),
    /// In a call: index of the transaction, then of the call.
    Call(usize, usize),
}

/// A balance change that the module reports when it is valid, with where it was recorded
/// and how it was found.
#[derive(Clone, Debug)]
pub struct NativeChange {
    pub source: ChangeSource,
    pub change: NativeBalanceChange,
    pub algorithm: Algorithm,
}

/// Contents of a candidate balance change.
pub type NativeChangeView = (ChangeSource, NativeBalanceChangeView, Algorithm);

/// Contents of a list of candidate balance changes.
pub open spec fn native_changes_list_view(v: Seq<NativeChange>) -> Seq<NativeChangeView> {
    v.map_values(|c: NativeChange| (c.source, c.change@, c.algorithm))
}

/// The block rewards paid by the block's balance changes, in order.
pub open spec fn reward_transfers(bcs: Seq<NativeBalanceChangeView>) -> Seq<NativeTransferView>
    decreases bcs.len(),
{
    if bcs.len() == 0 {
        Seq::empty()
    } else {
        reward_transfers(bcs.drop_last()) + match block_reward_transfer(bcs.last()) {
            Some(t) => seq![(None::<usize>, None::<usize>, t)],
            None => Seq::empty(),
        }
    }
}

/// The transfers of value made by the calls of transaction `ti`, in order.
pub open spec fn call_value_transfers(calls: Seq<CallView>, ti: usize) -> Seq<NativeTransferView>
    decreases calls.len(),
{
    if calls.len() == 0 {
        Seq::empty()
    } else {
        call_value_transfers(calls.drop_last(), ti) + match call_transfer(calls.last()) {
            Some(t) => seq![(Some(ti), Some((calls.len() - 1) as usize), t)],
            None => Seq::empty(),
        }
    }
}

/// The transfers of a succeeded transaction `ti`: its fee, its value, then those of its
/// calls.
pub open spec fn trx_native_transfers(
    trx: TransactionTraceView,
    ti: usize,
    base_fee_per_gas: int,
    coinbase: Seq<u8>,
) -> Seq<NativeTransferView> {
    fee_transfers(trx, base_fee_per_gas, coinbase).map_values(|t: TransferStructView| (Some(ti), None::<usize>, t))
        + match transaction_transfer(trx) {
            Some(t) => seq![(Some(ti), None::<usize>, t)],
            None => Seq::empty(),
        } + call_value_transfers(trx.calls, ti)
}

/// The transfers of the succeeded transactions, transaction after transaction.
pub open spec fn trxs_native_transfers(
    trxs: Seq<TransactionTraceView>,
    base_fee_per_gas: int,
    coinbase: Seq<u8>,
) -> Seq<NativeTransferView>
    decreases trxs.len(),
{
    if trxs.len() == 0 {
        Seq::empty()
    } else {
        let t = trxs.last();
        trxs_native_transfers(trxs.drop_last(), base_fee_per_gas, coinbase) + if t.status == STATUS_SUCCEEDED {
            trx_native_transfers(t, (trxs.len() - 1) as usize, base_fee_per_gas, coinbase)
        } else {
            Seq::empty()
        }
    }
}

/// The native transfers of a block: block rewards, then for each succeeded transaction its
/// fee (paid and burned), its value and the values of its calls.
pub open spec fn block_native_transfers(block: Block) -> Seq<NativeTransferView> {
    let header = block.header->0;
    reward_transfers(native_changes_view(block.balance_changes@)) + trxs_native_transfers(
        trxs_view(block.transaction_traces@),
        opt_value(opt_bytes_view(header.base_fee_per_gas)),
        header.coinbase@,
    )
}

proof fn lemma_call_value_transfers(calls: Seq<CallView>, ti: usize)
    ensures
        forall|k: int| 0 <= k < call_value_transfers(calls, ti).len() ==> (#[trigger] call_value_transfers(calls, ti)[k]).0 == Some(ti),
    decreases calls.len(),
{
    if calls.len() > 0 {
        lemma_call_value_transfers(calls.drop_last(), ti);
    }
}

proof fn lemma_trxs_native_transfers(trxs: Seq<TransactionTraceView>, base_fee_per_gas: int, coinbase: Seq<u8>)
    requires
        trxs.len() <= usize::MAX,
    ensures
        forall|k: int|
            0 <= k < trxs_native_transfers(trxs, base_fee_per_gas, coinbase).len() ==> ((#[trigger] trxs_native_transfers(
                trxs,
                base_fee_per_gas,
                coinbase,
            )[k]).0 matches Some(t) && t < trxs.len() && trxs[t as int].status == STATUS_SUCCEEDED),
    decreases trxs.len(),
{
    if trxs.len() > 0 {
        let ti = (trxs.len() - 1) as usize;
        let t = trxs.last();
        lemma_trxs_native_transfers(trxs.drop_last(), base_fee_per_gas, coinbase);
        lemma_call_value_transfers(t.calls, ti);
        let a = trxs_native_transfers(trxs.drop_last(), base_fee_per_gas, coinbase);
        let fees = fee_transfers(t, base_fee_per_gas, coinbase).map_values(|x: TransferStructView| (Some(ti), None::<usize>, x));
        let value = match transaction_transfer(t) {
            Some(x) => seq![(Some(ti), None::<usize>, x)],
            None => Seq::<NativeTransferView>::empty(),
        };
        let calls = call_value_transfers(t.calls, ti);
        assert forall|k: int| 0 <= k < trxs_native_transfers(trxs, base_fee_per_gas, coinbase).len() implies ((#[trigger] trxs_native_transfers(
            trxs,
            base_fee_per_gas,
            coinbase,
        )[k]).0 matches Some(x) && x < trxs.len() && trxs[x as int].status == STATUS_SUCCEEDED) by {
            if k < a.len() {
                assert(trxs_native_transfers(trxs, base_fee_per_gas, coinbase)[k] == a[k]);
                let x = a[k].0->0;
                assert(trxs.drop_last()[x as int] == trxs[x as int]);
            } else {
                let j = k - a.len();
                assert(trxs_native_transfers(trxs, base_fee_per_gas, coinbase)[k] == (fees + value + calls)[j]);
                if j < fees.len() {
                } else if j < fees.len() + value.len() {
                } else {
                    assert((fees + value + calls)[j] == calls[j - fees.len() - value.len()]);
                }
            }
        }
    }
}

/// Only succeeded transactions move native value: every transfer that names a transaction
/// names one of the block that succeeded, and the others are block rewards.
pub proof fn lemma_transfers_of_succeeded_transactions(block: Block)
    requires
        block.header is Some,
    ensures
        forall|k: int|
            0 <= k < block_native_transfers(block).len() ==> match (#[trigger] block_native_transfers(block)[k]).0 {
                Some(t) => t < block.transaction_traces.len() && block.transaction_traces@[t as int].status
                    == STATUS_SUCCEEDED,
                None => block_native_transfers(block)[k].2.algorithm == Algorithm::BlockReward,
            },
{
    let header = block.header->0;
    let bcs = native_changes_view(block.balance_changes@);
    let trxs = trxs_view(block.transaction_traces@);
    let a = reward_transfers(bcs);
    let fee = opt_value(opt_bytes_view(header.base_fee_per_gas));
    let b = trxs_native_transfers(trxs, fee, header.coinbase@);
    assert(trxs.len() == block.transaction_traces.len());
    lemma_reward_algorithms(bcs);
    lemma_trxs_native_transfers(trxs, fee, header.coinbase@);
    assert forall|k: int| 0 <= k < block_native_transfers(block).len() implies match (#[trigger] block_native_transfers(block)[k]).0 {
        Some(t) => t < block.transaction_traces.len() && block.transaction_traces@[t as int].status == STATUS_SUCCEEDED,
        None => block_native_transfers(block)[k].2.algorithm == Algorithm::BlockReward,
    } by {
        if k < a.len() {
            assert(block_native_transfers(block)[k] == a[k]);
        } else {
            assert(block_native_transfers(block)[k] == b[k - a.len()]);
            let t = b[k - a.len()].0->0;
            assert(trxs[t as int] == block.transaction_traces@[t as int]@);
        }
    }
}

proof fn lemma_reward_algorithms(bcs: Seq<NativeBalanceChangeView>)
    ensures
        forall|k: int|
            0 <= k < reward_transfers(bcs).len() ==> (#[trigger] reward_transfers(bcs)[k]).0 is None
                && reward_transfers(bcs)[k].1 is None
                && reward_transfers(bcs)[k].2.algorithm == Algorithm::BlockReward,
    decreases bcs.len(),
{
    if bcs.len() > 0 {
        lemma_reward_algorithms(bcs.drop_last());
    }
}

proof fn lemma_call_value_transfers_nested(calls: Seq<CallView>, ti: usize)
    requires
        calls.len() <= usize::MAX,
    ensures
        forall|k: int|
            0 <= k < call_value_transfers(calls, ti).len() ==> {
                let e = #[trigger] call_value_transfers(calls, ti)[k];
                &&& e.0 == Some(ti)
                &&& e.1 matches Some(j) && j < calls.len() && calls[j as int].depth > 0
                    && e.2.from == calls[j as int].caller && e.2.to == calls[j as int].address
            },
    decreases calls.len(),
{
    if calls.len() > 0 {
        let p = calls.drop_last();
        lemma_call_value_transfers_nested(p, ti);
        let last = calls.last();
        crate::native::lemma_call_transfer_nested(last);
        let a = call_value_transfers(p, ti);
        assert forall|k: int| 0 <= k < call_value_transfers(calls, ti).len() implies {
            let e = #[trigger] call_value_transfers(calls, ti)[k];
            &&& e.0 == Some(ti)
            &&& e.1 matches Some(j) && j < calls.len() && calls[j as int].depth > 0
                && e.2.from == calls[j as int].caller && e.2.to == calls[j as int].address
        } by {
            if k < a.len() {
                assert(call_value_transfers(calls, ti)[k] == a[k]);
                let j = a[k].1->0;
                assert(p[j as int] == calls[j as int]);
            } else {
                assert(calls[calls.len() - 1] == last);
            }
        }
    }
}

proof fn lemma_trxs_transfers_nested(trxs: Seq<TransactionTraceView>, base_fee_per_gas: int, coinbase: Seq<u8>)
    requires
        trxs.len() <= usize::MAX,
        forall|t: int| 0 <= t < trxs.len() ==> (#[trigger] trxs[t]).calls.len() <= usize::MAX,
    ensures
        forall|k: int|
            0 <= k < trxs_native_transfers(trxs, base_fee_per_gas, coinbase).len() ==> {
                let e = #[trigger] trxs_native_transfers(trxs, base_fee_per_gas, coinbase)[k];
                e.1 matches Some(j) ==> e.0 matches Some(t) && t < trxs.len() && j < trxs[t as int].calls.len()
                    && trxs[t as int].calls[j as int].depth > 0 && e.2.from == trxs[t as int].calls[j as int].caller
                    && e.2.to == trxs[t as int].calls[j as int].address
            },
    decreases trxs.len(),
{
    if trxs.len() > 0 {
        let ti = (trxs.len() - 1) as usize;
        let t = trxs.last();
        let p = trxs.drop_last();
        assert forall|x: int| 0 <= x < p.len() implies (#[trigger] p[x]).calls.len() <= usize::MAX by {
            assert(p[x] == trxs[x]);
        }
        lemma_trxs_transfers_nested(p, base_fee_per_gas, coinbase);
        assert(t == trxs[trxs.len() - 1]);
        lemma_call_value_transfers_nested(t.calls, ti);
        let a = trxs_native_transfers(p, base_fee_per_gas, coinbase);
        let fees = fee_transfers(t, base_fee_per_gas, coinbase).map_values(|x: TransferStructView| (Some(ti), None::<usize>, x));
        let value = match transaction_transfer(t) {
            Some(x) => seq![(Some(ti), None::<usize>, x)],
            None => Seq::<NativeTransferView>::empty(),
        };
        let calls = call_value_transfers(t.calls, ti);
        assert forall|k: int| 0 <= k < trxs_native_transfers(trxs, base_fee_per_gas, coinbase).len() implies {
            let e = #[trigger] trxs_native_transfers(trxs, base_fee_per_gas, coinbase)[k];
            e.1 matches Some(j) ==> e.0 matches Some(x) && x < trxs.len() && j < trxs[x as int].calls.len()
                && trxs[x as int].calls[j as int].depth > 0 && e.2.from == trxs[x as int].calls[j as int].caller
                && e.2.to == trxs[x as int].calls[j as int].address
        } by {
            if k < a.len() {
                assert(trxs_native_transfers(trxs, base_fee_per_gas, coinbase)[k] == a[k]);
                if a[k].1 is Some {
                    let x = a[k].0->0;
                    assert(p[x as int] == trxs[x as int]);
                }
            } else if t.status == STATUS_SUCCEEDED {
                let j = k - a.len();
                assert(trxs_native_transfers(trxs, base_fee_per_gas, coinbase)[k] == (fees + value + calls)[j]);
                if j >= fees.len() + value.len() {
                    assert((fees + value + calls)[j] == calls[j - fees.len() - value.len()]);
                } else if j >= fees.len() {
                    assert((fees + value + calls)[j] == value[j - fees.len()]);
                } else {
                    assert((fees + value + calls)[j] == fees[j]);
                }
            } else {
                assert(trxs_native_transfers(trxs, base_fee_per_gas, coinbase) =~= a);
            }
        }
    }
}

/// Value sent by a call is reported only for nested calls: every transfer that names a
/// call names one below the top level of its transaction, and goes from that call's caller
/// to its address. The value of a top-level call, which is the transaction's own, is thus
/// reported once, as the transaction's transfer.
pub proof fn lemma_call_transfers_are_nested(block: Block)
    requires
        block.header is Some,
    ensures
        forall|k: int|
            0 <= k < block_native_transfers(block).len() ==> {
                let e = #[trigger] block_native_transfers(block)[k];
                e.1 matches Some(j) ==> e.0 matches Some(t) && t < block.transaction_traces.len() && j
                    < block.transaction_traces@[t as int].calls.len()
                    && block.transaction_traces@[t as int].calls@[j as int].depth > 0
                    && e.2.from == block.transaction_traces@[t as int].calls@[j as int].caller@
                    && e.2.to == block.transaction_traces@[t as int].calls@[j as int].address@
            },
{
    let header = block.header->0;
    let bcs = native_changes_view(block.balance_changes@);
    let trxs = trxs_view(block.transaction_traces@);
    let a = reward_transfers(bcs);
    let fee = opt_value(opt_bytes_view(header.base_fee_per_gas));
    let b = trxs_native_transfers(trxs, fee, header.coinbase@);
    assert(trxs.len() == block.transaction_traces.len());
    assert forall|t: int| 0 <= t < trxs.len() implies (#[trigger] trxs[t]).calls.len() <= usize::MAX by {
        assert(trxs[t] == block.transaction_traces@[t]@);
        assert(trxs[t].calls.len() == block.transaction_traces@[t].calls.len());
    }
    lemma_reward_algorithms(bcs);
    lemma_trxs_transfers_nested(trxs, fee, header.coinbase@);
    assert forall|k: int| 0 <= k < block_native_transfers(block).len() implies {
        let e = #[trigger] block_native_transfers(block)[k];
        e.1 matches Some(j) ==> e.0 matches Some(t) && t < block.transaction_traces.len() && j
            < block.transaction_traces@[t as int].calls.len()
            && block.transaction_traces@[t as int].calls@[j as int].depth > 0
            && e.2.from == block.transaction_traces@[t as int].calls@[j as int].caller@
            && e.2.to == block.transaction_traces@[t as int].calls@[j as int].address@
    } by {
        if k < a.len() {
            assert(block_native_transfers(block)[k] == a[k]);
        } else {
            assert(block_native_transfers(block)[k] == b[k - a.len()]);
            let e = b[k - a.len()];
            if e.1 is Some {
                let t = e.0->0;
                let j = e.1->0;
                assert(trxs[t as int] == block.transaction_traces@[t as int]@);
                assert(trxs[t as int].calls == calls_view(block.transaction_traces@[t as int].calls@));
                assert(trxs[t as int].calls[j as int] == block.transaction_traces@[t as int].calls@[j as int]@);
            }
        }
    }
}

fn push_transfer(out: &mut Vec<NativeTransfer>, transaction: Option<usize>, call: Option<usize>, transfer: TransferStruct)
    ensures
        native_transfers_view(final(out)@) == native_transfers_view(old(out)@).push((transaction, call, transfer@)),
{
    let ghost tv = transfer@;
    out.push(NativeTransfer { transaction, call, transfer });
    assert(native_transfers_view(out@) =~= native_transfers_view(old(out)@).push((transaction, call, tv)));
}

fn push_trx_transfers(
    out: &mut Vec<NativeTransfer>,
    trx: &TransactionTrace,
    ti: usize,
    base_fee_per_gas: &crate::bignum::BigNum,
    coinbase: &Vec<u8>,
)
    ensures
        native_transfers_view(final(out)@) == native_transfers_view(old(out)@) + trx_native_transfers(
            trx@,
            ti,
            base_fee_per_gas@,
            coinbase@,
        ),
{
    let ghost start = native_transfers_view(out@);
    let fees = get_transfer_from_transaction_fee(trx, base_fee_per_gas, coinbase);
    let ghost fv = transfers_view(fees@).map_values(|t: TransferStructView| (Some(ti), None::<usize>, t));
    let mut fees = fees;
    let ghost fees_view = transfers_view(fees@);
    let mut k: usize = 0;
    let n = fees.len();
    while fees.len() > 0
        invariant
            n == fees_view.len(),
            k + fees.len() == n,
            transfers_view(fees@) == fees_view.skip(k as int),
            fv == fees_view.map_values(|t: TransferStructView| (Some(ti), None::<usize>, t)),
            native_transfers_view(out@) == start + fv.take(k as int),
        decreases fees.len(),
    {
        let ghost before = fees@;
        proof {
            assert(transfers_view(before)[0] == before[0]@);
            assert(fees_view.skip(k as int)[0] == fees_view[k as int]);
        }
        let t = fees.remove(0);
        proof {
            assert(t@ == fees_view[k as int]);
            assert(fees@ =~= before.drop_first());
            assert(transfers_view(fees@) =~= transfers_view(before).drop_first());
            assert(fees_view.skip(k + 1) =~= fees_view.skip(k as int).drop_first());
            assert(fv.take(k + 1) =~= fv.take(k as int).push(fv[k as int]));
        }
        push_transfer(out, Some(ti), None, t);
        k += 1;
        proof {
            assert(transfers_view(fees@) =~= fees_view.skip(k as int));
        }
    }
    assert(fv.take(n as int) =~= fv);
    let ghost after_fees = native_transfers_view(out@);
    if let Some(t) = get_transfer_from_transaction(trx) {
        push_transfer(out, Some(ti), None, t);
    }
    let ghost head = native_transfers_view(out@);
    proof {
        assert(head == start + fv + match transaction_transfer(trx@) {
            Some(t) => seq![(Some(ti), None::<usize>, t)],
            None => Seq::<NativeTransferView>::empty(),
        });
    }
    let ghost cv = calls_view(trx.calls@);
    let mut j: usize = 0;
    while j < trx.calls.len()
        invariant
            cv == calls_view(trx.calls@),
            j <= trx.calls.len(),
            native_transfers_view(out@) == head + call_value_transfers(cv.take(j as int), ti),
        decreases trx.calls.len() - j,
    {
        proof {
            assert(cv.take(j + 1).drop_last() =~= cv.take(j as int));
            assert(cv[j as int] == trx.calls@[j as int]@);
        }
        if let Some(t) = get_transfer_from_call(&trx.calls[j]) {
            push_transfer(out, Some(ti), Some(j), t);
        }
        j += 1;
    }
    assert(cv.take(trx.calls.len() as int) =~= cv);
    assert(native_transfers_view(out@) =~= start + trx_native_transfers(trx@, ti, base_fee_per_gas@, coinbase@));
}

/// The native transfers of a block, in the order the module reports them: block rewards,
/// then for each succeeded transaction its fee (paid, then burned), its value and the
/// values sent by its calls. The block header is required for the fee.
pub fn native_transfers(block: &Block) -> (r: Vec<NativeTransfer>)
    requires
        block.header is Some,
    ensures
        native_transfers_view(r@) == block_native_transfers(*block),
        forall|k: int|
            0 <= k < r.len() ==> ((#[trigger] r@[k]).call matches Some(j) ==> r@[k].transaction matches Some(t)
                && t < block.transaction_traces.len() && j < block.transaction_traces@[t as int].calls.len()
                && block.transaction_traces@[t as int].calls@[j as int].depth > 0),
{
    let mut out: Vec<NativeTransfer> = Vec::new();
    let ghost bv = native_changes_view(block.balance_changes@);
    let mut i: usize = 0;
    while i < block.balance_changes.len()
        invariant
            bv == native_changes_view(block.balance_changes@),
            i <= block.balance_changes.len(),
            native_transfers_view(out@) == reward_transfers(bv.take(i as int)),
        decreases block.balance_changes.len() - i,
    {
        proof {
            assert(bv.take(i + 1).drop_last() =~= bv.take(i as int));
            assert(bv[i as int] == block.balance_changes@[i as int]@);
        }
        if let Some(t) = get_transfer_from_block_reward(&block.balance_changes[i]) {
            push_transfer(&mut out, None, None, t);
        }
        i += 1;
    }
    assert(bv.take(block.balance_changes.len() as int) =~= bv);
    let header = match &block.header {
        Some(h) => h,
        None => return out,
    };
    let base_fee_per_gas = value_or_zero(&header.base_fee_per_gas);
    let ghost head = native_transfers_view(out@);
    let ghost trxs = trxs_view(block.transaction_traces@);
    let mut t: usize = 0;
    while t < block.transaction_traces.len()
        invariant
            trxs == trxs_view(block.transaction_traces@),
            t <= block.transaction_traces.len(),
            native_transfers_view(out@) == head + trxs_native_transfers(trxs.take(t as int), base_fee_per_gas@, header.coinbase@),
        decreases block.transaction_traces.len() - t,
    {
        let trx = &block.transaction_traces[t];
        proof {
            assert(trxs.take(t + 1).drop_last() =~= trxs.take(t as int));
            assert(trxs[t as int] == trx@);
        }
        if trx.status == STATUS_SUCCEEDED {
            push_trx_transfers(&mut out, trx, t, &base_fee_per_gas, &header.coinbase);
        }
        t += 1;
    }
    assert(trxs.take(block.transaction_traces.len() as int) =~= trxs);
    proof {
        lemma_call_transfers_are_nested(*block);
        assert forall|k: int| 0 <= k < out.len() implies ((#[trigger] out@[k]).call matches Some(j) ==> out@[k].transaction matches Some(t)
            && t < block.transaction_traces.len() && j < block.transaction_traces@[t as int].calls.len()
            && block.transaction_traces@[t as int].calls@[j as int].depth > 0) by {
            assert(native_transfers_view(out@)[k] == (out@[k].transaction, out@[k].call, out@[k].transfer@));
        }
    }
    out
}

/// The balance changes recorded at block level, each a block reward.
pub open spec fn block_level_candidates(bcs: Seq<NativeBalanceChangeView>) -> Seq<NativeChangeView> {
    bcs.map_values(|bc: NativeBalanceChangeView| (ChangeSource::Block, bc, Algorithm::BlockReward))
}

/// The balance changes recorded in the system calls, system call after system call.
pub open spec fn system_call_candidates(calls: Seq<CallView>) -> Seq<NativeChangeView>
    decreases calls.len(),
{
    if calls.len() == 0 {
        Seq::empty()
    } else {
        let source = ChangeSource::SystemCall((calls.len() - 1) as usize);
        system_call_candidates(calls.drop_last()) + calls.last().balance_changes.map_values(
            |bc: NativeBalanceChangeView| (source, bc, Algorithm::System),
        )
    }
}

/// How a balance change of a call is reported: in a failed transaction only gas changes
/// are (as gas), in any other transaction every change is (as a call's).
pub open spec fn call_change_algorithm(failed: bool, bc: NativeBalanceChangeView) -> Option<Algorithm> {
    if failed && is_gas_reason(bc.reason) {
        Some(Algorithm::Gas)
    } else if failed {
        None
    } else {
        Some(Algorithm::Call)
    }
}

/// The reported balance changes among those of one call.
pub open spec fn call_candidates(
    bcs: Seq<NativeBalanceChangeView>,
    failed: bool,
    source: ChangeSource,
) -> Seq<NativeChangeView>
    decreases bcs.len(),
{
    if bcs.len() == 0 {
        Seq::empty()
    } else {
        call_candidates(bcs.drop_last(), failed, source) + match call_change_algorithm(failed, bcs.last()) {
            Some(a) => seq![(source, bcs.last(), a)],
            None => Seq::empty(),
        }
    }
}

/// The reported balance changes of the calls of transaction `ti`, call after call.
pub open spec fn trx_call_candidates(calls: Seq<CallView>, ti: usize, failed: bool) -> Seq<NativeChangeView>
    decreases calls.len(),
{
    if calls.len() == 0 {
        Seq::empty()
    } else {
        trx_call_candidates(calls.drop_last(), ti, failed) + call_candidates(
            calls.last().balance_changes,
            failed,
            ChangeSource::Call(ti, (calls.len() - 1) as usize),
        )
    }
}

/// Whether a transaction failed or was reverted.
pub open spec fn trx_failed(trx: TransactionTraceView) -> bool {
    trx.status == STATUS_REVERTED || trx.status == STATUS_FAILED
}

/// The reported balance changes of the calls of all transactions, failed ones included.
pub open spec fn trxs_call_candidates(trxs: Seq<TransactionTraceView>) -> Seq<NativeChangeView>
    decreases trxs.len(),
{
    if trxs.len() == 0 {
        Seq::empty()
    } else {
        trxs_call_candidates(trxs.drop_last()) + trx_call_candidates(
            trxs.last().calls,
            (trxs.len() - 1) as usize,
            trx_failed(trxs.last()),
        )
    }
}

/// The balance changes of a block that the module tests for validity, in its order: those
/// at block level, those of the system calls, then those of the transactions' calls.
pub open spec fn block_change_candidates(block: Block) -> Seq<NativeChangeView> {
    block_level_candidates(native_changes_view(block.balance_changes@)) + system_call_candidates(
        calls_view(block.system_calls@),
    ) + trxs_call_candidates(trxs_view(block.transaction_traces@))
}

/// How a change of a call of a transaction is reported: in a failed or reverted
/// transaction as gas, and only if it is about gas; in any other as a call's.
pub open spec fn reported_as(failed: bool, c: NativeChangeView) -> bool {
    if failed {
        c.2 == Algorithm::Gas && is_gas_reason(c.1.reason)
    } else {
        c.2 == Algorithm::Call
    }
}

proof fn lemma_call_candidates(bcs: Seq<NativeBalanceChangeView>, failed: bool, source: ChangeSource)
    ensures
        forall|k: int|
            0 <= k < call_candidates(bcs, failed, source).len() ==> (#[trigger] call_candidates(bcs, failed, source)[k]).0
                == source && reported_as(failed, call_candidates(bcs, failed, source)[k]),
    decreases bcs.len(),
{
    if bcs.len() > 0 {
        lemma_call_candidates(bcs.drop_last(), failed, source);
    }
}

proof fn lemma_trx_call_candidates(calls: Seq<CallView>, ti: usize, failed: bool)
    ensures
        forall|k: int|
            0 <= k < trx_call_candidates(calls, ti, failed).len() ==> ((#[trigger] trx_call_candidates(calls, ti, failed)[k]).0 matches ChangeSource::Call(t, _) && t == ti) && reported_as(
                failed,
                trx_call_candidates(calls, ti, failed)[k],
            ),
    decreases calls.len(),
{
    if calls.len() > 0 {
        let source = ChangeSource::Call(ti, (calls.len() - 1) as usize);
        lemma_trx_call_candidates(calls.drop_last(), ti, failed);
        lemma_call_candidates(calls.last().balance_changes, failed, source);
        let a = trx_call_candidates(calls.drop_last(), ti, failed);
        let b = call_candidates(calls.last().balance_changes, failed, source);
        assert forall|k: int| 0 <= k < trx_call_candidates(calls, ti, failed).len() implies ((#[trigger] trx_call_candidates(calls, ti, failed)[k]).0 matches ChangeSource::Call(t, _) && t == ti) && reported_as(
            failed,
            trx_call_candidates(calls, ti, failed)[k],
        ) by {
            if k < a.len() {
                assert(trx_call_candidates(calls, ti, failed)[k] == a[k]);
            } else {
                assert(trx_call_candidates(calls, ti, failed)[k] == b[k - a.len()]);
            }
        }
    }
}

proof fn lemma_trxs_call_candidates(trxs: Seq<TransactionTraceView>)
    requires
        trxs.len() <= usize::MAX,
    ensures
        forall|k: int|
            0 <= k < trxs_call_candidates(trxs).len() ==> ((#[trigger] trxs_call_candidates(trxs)[k]).0 matches ChangeSource::Call(t, _) && t < trxs.len() && reported_as(
                trx_failed(trxs[t as int]),
                trxs_call_candidates(trxs)[k],
            )),
    decreases trxs.len(),
{
    if trxs.len() > 0 {
        let ti = (trxs.len() - 1) as usize;
        lemma_trxs_call_candidates(trxs.drop_last());
        lemma_trx_call_candidates(trxs.last().calls, ti, trx_failed(trxs.last()));
        let a = trxs_call_candidates(trxs.drop_last());
        let b = trx_call_candidates(trxs.last().calls, ti, trx_failed(trxs.last()));
        assert forall|k: int| 0 <= k < trxs_call_candidates(trxs).len() implies ((#[trigger] trxs_call_candidates(trxs)[k]).0 matches ChangeSource::Call(t, _) && t < trxs.len() && reported_as(
            trx_failed(trxs[t as int]),
            trxs_call_candidates(trxs)[k],
        )) by {
            if k < a.len() {
                assert(trxs_call_candidates(trxs)[k] == a[k]);
                let t = a[k].0->Call_0;
                assert(trxs.drop_last()[t as int] == trxs[t as int]);
            } else {
                assert(trxs_call_candidates(trxs)[k] == b[k - a.len()]);
            }
        }
    }
}

proof fn lemma_system_call_candidates(calls: Seq<CallView>)
    ensures
        forall|k: int| 0 <= k < system_call_candidates(calls).len() ==> (#[trigger] system_call_candidates(calls)[k]).0 is SystemCall,
    decreases calls.len(),
{
    if calls.len() > 0 {
        lemma_system_call_candidates(calls.drop_last());
    }
}

/// In a failed or reverted transaction only the balance changes about gas are reported,
/// as gas; in any other transaction every balance change of its calls is reported, as a
/// call's. Every reported change of a call names a transaction of the block.
pub proof fn lemma_failed_transactions_report_only_gas(block: Block)
    ensures
        forall|k: int|
            0 <= k < block_change_candidates(block).len() ==> ((#[trigger] block_change_candidates(block)[k]).0 matches ChangeSource::Call(t, _)
                ==> t < block.transaction_traces.len() && reported_as(
                trx_failed(block.transaction_traces@[t as int]@),
                block_change_candidates(block)[k],
            )),
{
    let a = block_level_candidates(native_changes_view(block.balance_changes@));
    let s = system_call_candidates(calls_view(block.system_calls@));
    let trxs = trxs_view(block.transaction_traces@);
    let c = trxs_call_candidates(trxs);
    lemma_system_call_candidates(calls_view(block.system_calls@));
    assert(trxs.len() == block.transaction_traces.len());
    lemma_trxs_call_candidates(trxs);
    assert forall|k: int| 0 <= k < block_change_candidates(block).len() implies ((#[trigger] block_change_candidates(block)[k]).0 matches ChangeSource::Call(t, _)
        ==> t < block.transaction_traces.len() && reported_as(
        trx_failed(block.transaction_traces@[t as int]@),
        block_change_candidates(block)[k],
    )) by {
        if k < a.len() {
            assert(block_change_candidates(block)[k] == a[k]);
        } else if k < a.len() + s.len() {
            assert(block_change_candidates(block)[k] == s[k - a.len()]);
        } else {
            assert(block_change_candidates(block)[k] == c[k - a.len() - s.len()]);
        }
    }
}

fn push_change(out: &mut Vec<NativeChange>, source: ChangeSource, change: &NativeBalanceChange, algorithm: Algorithm)
    ensures
        native_changes_list_view(final(out)@) == native_changes_list_view(old(out)@).push((source, change@, algorithm)),
{
    let c = change.duplicate();
    out.push(NativeChange { source, change: c, algorithm });
    assert(native_changes_list_view(out@) =~= native_changes_list_view(old(out)@).push((source, change@, algorithm)));
}

fn push_all_changes(out: &mut Vec<NativeChange>, call: &Call, source: ChangeSource, algorithm: Algorithm)
    ensures
        native_changes_list_view(final(out)@) == native_changes_list_view(old(out)@) + call@.balance_changes.map_values(
            |bc: NativeBalanceChangeView| (source, bc, algorithm),
        ),
{
    let ghost start = native_changes_list_view(out@);
    let ghost bv = native_changes_view(call.balance_changes@);
    let ghost all = bv.map_values(|bc: NativeBalanceChangeView| (source, bc, algorithm));
    let mut i: usize = 0;
    while i < call.balance_changes.len()
        invariant
            bv == native_changes_view(call.balance_changes@),
            all == bv.map_values(|bc: NativeBalanceChangeView| (source, bc, algorithm)),
            i <= call.balance_changes.len(),
            native_changes_list_view(out@) == start + all.take(i as int),
        decreases call.balance_changes.len() - i,
    {
        proof {
            assert(bv[i as int] == call.balance_changes@[i as int]@);
            assert(all.take(i + 1) =~= all.take(i as int).push(all[i as int]));
        }
        push_change(out, source, &call.balance_changes[i], algorithm);
        i += 1;
    }
    assert(all.take(call.balance_changes.len() as int) =~= all);
}

fn push_call_candidates(out: &mut Vec<NativeChange>, call: &Call, failed: bool, source: ChangeSource)
    ensures
        native_changes_list_view(final(out)@) == native_changes_list_view(old(out)@) + call_candidates(
            call@.balance_changes,
            failed,
            source,
        ),
{
    let ghost start = native_changes_list_view(out@);
    let ghost bv = native_changes_view(call.balance_changes@);
    assert(call@.balance_changes == bv);
    let mut i: usize = 0;
    while i < call.balance_changes.len()
        invariant
            bv == native_changes_view(call.balance_changes@),
            i <= call.balance_changes.len(),
            native_changes_list_view(out@) == start + call_candidates(bv.take(i as int), failed, source),
        decreases call.balance_changes.len() - i,
    {
        let bc = &call.balance_changes[i];
        proof {
            assert(bv.take(i + 1).drop_last() =~= bv.take(i as int));
            assert(bv[i as int] == bc@);
        }
        let gas = is_gas_balance_change(bc);
        if failed && gas {
            push_change(out, source, bc, Algorithm::Gas);
        } else if !failed {
            push_change(out, source, bc, Algorithm::Call);
        }
        proof {
            assert(bv.take(i + 1).last() == bc@);
        }
        i += 1;
    }
    assert(bv.take(call.balance_changes.len() as int) =~= bv);
}

/// The balance changes of a block that the native-balances module tests for validity, each
/// with where it was recorded and the algorithm it is reported under: the block-level
/// changes (block rewards), those of the system calls, then for every transaction, failed
/// ones included, those of its calls; in a failed transaction only gas changes are kept.
pub fn balance_change_candidates(block: &Block) -> (r: Vec<NativeChange>)
    ensures
        native_changes_list_view(r@) == block_change_candidates(*block),
{
    let mut out: Vec<NativeChange> = Vec::new();
    let ghost bv = native_changes_view(block.balance_changes@);
    let mut i: usize = 0;
    while i < block.balance_changes.len()
        invariant
            bv == native_changes_view(block.balance_changes@),
            i <= block.balance_changes.len(),
            native_changes_list_view(out@) == block_level_candidates(bv.take(i as int)),
        decreases block.balance_changes.len() - i,
    {
        push_change(&mut out, ChangeSource::Block, &block.balance_changes[i], Algorithm::BlockReward);
        proof {
            assert(block_level_candidates(bv.take(i + 1)) =~= block_level_candidates(bv.take(i as int)).push(
                (ChangeSource::Block, bv[i as int], Algorithm::BlockReward),
            ));
        }
        i += 1;
    }
    assert(bv.take(block.balance_changes.len() as int) =~= bv);
    let ghost head = native_changes_list_view(out@);
    let ghost sv = calls_view(block.system_calls@);
    let mut s: usize = 0;
    while s < block.system_calls.len()
        invariant
            sv == calls_view(block.system_calls@),
            s <= block.system_calls.len(),
            native_changes_list_view(out@) == head + system_call_candidates(sv.take(s as int)),
        decreases block.system_calls.len() - s,
    {
        let call = &block.system_calls[s];
        proof {
            assert(sv.take(s + 1).drop_last() =~= sv.take(s as int));
            assert(sv[s as int] == call@);
        }
        push_all_changes(&mut out, call, ChangeSource::SystemCall(s), Algorithm::System);
        s += 1;
    }
    assert(sv.take(block.system_calls.len() as int) =~= sv);
    let ghost mid = native_changes_list_view(out@);
    let ghost tv = trxs_view(block.transaction_traces@);
    let mut t: usize = 0;
    while t < block.transaction_traces.len()
        invariant
            tv == trxs_view(block.transaction_traces@),
            t <= block.transaction_traces.len(),
            native_changes_list_view(out@) == mid + trxs_call_candidates(tv.take(t as int)),
        decreases block.transaction_traces.len() - t,
    {
        let trx = &block.transaction_traces[t];
        proof {
            assert(tv.take(t + 1).drop_last() =~= tv.take(t as int));
            assert(tv[t as int] == trx@);
        }
        let failed = is_failed_transaction(trx);
        let ghost cv = calls_view(trx.calls@);
        let ghost at_trx = native_changes_list_view(out@);
        let mut j: usize = 0;
        while j < trx.calls.len()
            invariant
                cv == calls_view(trx.calls@),
                j <= trx.calls.len(),
                native_changes_list_view(out@) == at_trx + trx_call_candidates(cv.take(j as int), t, failed),
            decreases trx.calls.len() - j,
        {
            proof {
                assert(cv.take(j + 1).drop_last() =~= cv.take(j as int));
                assert(cv[j as int] == trx.calls@[j as int]@);
            }
            push_call_candidates(&mut out, &trx.calls[j], failed, ChangeSource::Call(t, j));
            j += 1;
        }
        assert(cv.take(trx.calls.len() as int) =~= cv);
        t += 1;
    }
    assert(tv.take(block.transaction_traces.len() as int) =~= tv);
    out
}

/// What the native-balances module gathers from blocks: native transfers, and the balance
/// changes that pass its validity test.
#[derive(Clone, Debug)]
pub struct Events {
    pub transfers: Vec<NativeTransfer>,
    pub balance_changes: Vec<NativeChange>,
}

fn append_transfers(out: &mut Vec<NativeTransfer>, more: Vec<NativeTransfer>)
    ensures
        native_transfers_view(final(out)@) == native_transfers_view(old(out)@) + native_transfers_view(more@),
{
    let mut more = more;
    let ghost a = out@;
    let ghost b = more@;
    out.append(&mut more);
    assert(native_transfers_view(a + b) =~= native_transfers_view(a) + native_transfers_view(b));
}

/// The candidates whose validity flag (the flag at the same position) is set, in order.
pub open spec fn kept_changes(cands: Seq<NativeChangeView>, valid: Seq<bool>) -> Seq<NativeChangeView>
    decreases cands.len(),
{
    if cands.len() == 0 {
        Seq::empty()
    } else {
        kept_changes(cands.drop_last(), valid) + if valid[cands.len() - 1] {
            seq![cands.last()]
        } else {
            Seq::empty()
        }
    }
}

/// Appends to `out` the changes whose flag in `valid` is set, in order.
pub fn keep_valid(out: &mut Vec<NativeChange>, changes: &Vec<NativeChange>, valid: &Vec<bool>)
    requires
        valid.len() == changes.len(),
    ensures
        native_changes_list_view(final(out)@) == native_changes_list_view(old(out)@) + kept_changes(
            native_changes_list_view(changes@),
            valid@,
        ),
{
    let ghost start = native_changes_list_view(out@);
    let ghost cv = native_changes_list_view(changes@);
    let mut i: usize = 0;
    while i < changes.len()
        invariant
            valid.len() == changes.len(),
            cv == native_changes_list_view(changes@),
            i <= changes.len(),
            native_changes_list_view(out@) == start + kept_changes(cv.take(i as int), valid@),
        decreases changes.len() - i,
    {
        let c = &changes[i];
        proof {
            assert(cv.take(i + 1).drop_last() =~= cv.take(i as int));
            assert(cv[i as int] == (c.source, c.change@, c.algorithm));
            assert(cv.take(i + 1).last() == cv[i as int]);
        }
        if valid[i] {
            push_change(out, c.source, &c.change, c.algorithm);
        }
        i += 1;
    }
    assert(cv.take(changes.len() as int) =~= cv);
}

/// Appends the block's native transfers and the balance changes it reports to `events`:
/// after the call the transfers are the earlier ones followed by those of the block, in
/// the module's order (block rewards, then fees, values and call values of each succeeded
/// transaction), and the balance changes are the earlier ones followed by the block's
/// valid candidates (block level, system calls, then the calls of every transaction).
/// `valid` holds the module's validity test's answer for each candidate of
/// `balance_change_candidates(block)`, in order. The block header is required.
pub fn insert_events(block: &Block, events: &mut Events, valid: &Vec<bool>)
    requires
        block.header is Some,
        valid.len() == block_change_candidates(*block).len(),
    ensures
        native_transfers_view(final(events).transfers@) == native_transfers_view(old(events).transfers@)
            + block_native_transfers(*block),
        native_changes_list_view(final(events).balance_changes@) == native_changes_list_view(
            old(events).balance_changes@,
        ) + kept_changes(block_change_candidates(*block), valid@),
{
    let transfers = native_transfers(block);
    let changes = balance_change_candidates(block);
    append_transfers(&mut events.transfers, transfers);
    keep_valid(&mut events.balance_changes, &changes, valid);
}

} // verus!
