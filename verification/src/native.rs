//! Native (ETH) balances: failed transactions and calls, gas balance changes, and the
//! transfers of value that a block makes.
use crate::bignum::{
    be_value, difference, from_u64, from_unsigned_bytes_be, int_text, lt, product,
    to_decimal_string, BigNum,
};
use crate::eth::{
    calls_view, copy_bytes, native_changes_view, opt_bytes_view, trxs_view, Block, Call,
    CallView, NativeBalanceChange, NativeBalanceChangeView, TransactionTrace,
    TransactionTraceView, STATUS_FAILED, STATUS_REVERTED,
};
use crate::hexcode::{encode, hex_text};
use vstd::prelude::*;

verus! {

/// Protobuf number of the `REWARD_MINE_BLOCK` reason.
pub const REASON_REWARD_MINE_BLOCK: i32 = 2;

/// Protobuf number of the `GAS_BUY` reason.
pub const REASON_GAS_BUY: i32 = 7;

/// Protobuf number of the `REWARD_TRANSACTION_FEE` reason.
pub const REASON_REWARD_TRANSACTION_FEE: i32 = 8;

/// Protobuf number of the `GAS_REFUND` reason.
pub const REASON_GAS_REFUND: i32 = 9;

/// Protobuf number of the `CALL` call type.
pub const CALL_TYPE_CALL: i32 = 1;

/// Whether the transaction failed or was reverted.
pub fn is_failed_transaction(trx: &TransactionTrace) -> (r: bool)
    ensures
        r == (trx.status == STATUS_REVERTED || trx.status == STATUS_FAILED),
{
    if trx.status == STATUS_REVERTED || trx.status == STATUS_FAILED {
        return true;
    }
    false
}

/// Whether the call's state was reverted or it failed or reverted.
pub fn is_failed_call(call: &Call) -> (r: bool)
    ensures
        r == (call.state_reverted || call.status_failed || call.status_reverted),
{
    if call.state_reverted || call.status_failed || call.status_reverted {
        return true;
    }
    false
}

/// Whether a balance change reason is about gas: buying it, refunding it, or the
/// transaction fee reward.
pub open spec fn is_gas_reason(reason: i32) -> bool {
    reason == REASON_GAS_BUY || reason == REASON_GAS_REFUND || reason == REASON_REWARD_TRANSACTION_FEE
}

/// Whether the balance change is about gas.
pub fn is_gas_balance_change(balance_change: &NativeBalanceChange) -> (r: bool)
    ensures
        r == is_gas_reason(balance_change.reason),
        r == (balance_change.reason == REASON_GAS_BUY || balance_change.reason == REASON_GAS_REFUND
            || balance_change.reason == REASON_REWARD_TRANSACTION_FEE),
{
    let reason = balance_change.reason;
    if reason == REASON_GAS_BUY || reason == REASON_GAS_REFUND || reason == REASON_REWARD_TRANSACTION_FEE {
        return true;
    }
    false
}

/// The value of optional unsigned big-endian bytes, zero when absent.
pub open spec fn opt_value(v: Option<Seq<u8>>) -> int {
    match v {
        Some(b) => be_value(b) as int,
        None => 0,
    }
}

/// The value of optional unsigned big-endian bytes, zero when absent.
pub(crate) fn value_or_zero(v: &Option<Vec<u8>>) -> (r: BigNum)
    ensures
        r@ == opt_value(opt_bytes_view(*v)),
{
    match v {
        Some(b) => from_unsigned_bytes_be(b.as_slice()),
        None => BigNum::zero(),
    }
}

/// The old and new balance of a balance change, zero where a value is absent.
pub fn get_balances(balance_change: &NativeBalanceChange) -> (r: (BigNum, BigNum))
    ensures
        r.0@ == opt_value(balance_change@.old_value),
        r.1@ == opt_value(balance_change@.new_value),
{
    (value_or_zero(&balance_change.old_value), value_or_zero(&balance_change.new_value))
}

/// How a transfer or balance change was found.
#[derive(Clone, Copy, Debug, PartialEq, Eq, Structural)]
pub enum Algorithm {
    Unspecified,
    BlockReward,
    Transaction,
    Call,
    TransactionFee,
    TransactionFeeBurn,
    System,
    Gas,
    /// The transfer event of a log.
    Log,
    /// A storage change of a child call of the call that emitted the transfer.
    ChildCalls,
    /// A storage change whose balance does not move by the transfer's value.
    BalanceNotMatchTransfer,
    /// A balance read by an RPC call.
    Rpc,
}

/// Contents of a native transfer.
pub struct TransferStructView {
    pub from: Seq<u8>,
    pub to: Seq<u8>,
    pub value: int,
    pub ordinal: u64,
    pub algorithm: Algorithm,
}

/// A transfer of native value.
#[derive(Clone, Debug)]
pub struct TransferStruct {
    pub from: Vec<u8>,
    pub to: Vec<u8>,
    pub value: BigNum,
    pub ordinal: u64,
    pub algorithm: Algorithm,
}

impl View for TransferStruct {
    type V = TransferStructView;

    open spec fn view(&self) -> TransferStructView {
        TransferStructView {
            from: self.from@,
            to: self.to@,
            value: self.value@,
            ordinal: self.ordinal,
            algorithm: self.algorithm,
        }
    }
}

/// The null address: twenty zero bytes.
pub open spec fn null_address() -> Seq<u8> {
    Seq::new(20, |i: int| 0u8)
}

/// Twenty zero bytes.
fn null_address_bytes() -> (r: Vec<u8>)
    ensures
        r@ == null_address(),
{
    let mut r: Vec<u8> = Vec::new();
    let mut i: usize = 0;
    while i < 20
        invariant
            i <= 20,
            r@ == Seq::new(i as nat, |k: int| 0u8),
        decreases 20 - i,
    {
        r.push(0u8);
        i += 1;
        assert(r@ =~= Seq::new(i as nat, |k: int| 0u8));
    }
    r
}

/// The block reward a balance change pays, if it is one: a `REWARD_MINE_BLOCK` change
/// that raised the balance, as a transfer from the null address.
pub open spec fn block_reward_transfer(bc: NativeBalanceChangeView) -> Option<TransferStructView> {
    let value = opt_value(bc.new_value) - opt_value(bc.old_value);
    if bc.reason != REASON_REWARD_MINE_BLOCK || value <= 0 {
        None
    } else {
        Some(
            TransferStructView {
                from: null_address(),
                to: bc.address,
                value,
                ordinal: bc.ordinal,
                algorithm: Algorithm::BlockReward,
            },
        )
    }
}

/// The block reward a balance change pays, if it is one.
pub fn get_transfer_from_block_reward(balance_change: &NativeBalanceChange) -> (r: Option<TransferStruct>)
    ensures
        match (r, block_reward_transfer(balance_change@)) {
            (Some(t), Some(v)) => t@ == v,
            (None, None) => true,
            _ => false,
        },
{
    if balance_change.reason != REASON_REWARD_MINE_BLOCK {
        return None;
    }
    let (old_balance, new_balance) = get_balances(balance_change);
    let value = difference(&new_balance, &old_balance);
    if !lt(&BigNum::zero(), &value) {
        return None;
    }
    Some(
        TransferStruct {
            from: null_address_bytes(),
            to: copy_bytes(&balance_change.address),
            value,
            ordinal: balance_change.ordinal,
            algorithm: Algorithm::BlockReward,
        },
    )
}

/// The value a succeeded transaction sends, if it sends some.
pub open spec fn transaction_transfer(
    trx: crate::eth::TransactionTraceView,
) -> Option<TransferStructView> {
    if trx.status == STATUS_REVERTED || trx.status == STATUS_FAILED || trx.value is None || be_value(
        trx.value->0,
    ) == 0 {
        None
    } else {
        Some(
            TransferStructView {
                from: trx.from,
                to: trx.to,
                value: be_value(trx.value->0) as int,
                ordinal: trx.begin_ordinal,
                algorithm: Algorithm::Transaction,
            },
        )
    }
}

/// The value a transaction sends, if it did not fail and sends some.
pub fn get_transfer_from_transaction(trx: &TransactionTrace) -> (r: Option<TransferStruct>)
    ensures
        match (r, transaction_transfer(trx@)) {
            (Some(t), Some(v)) => t@ == v,
            (None, None) => true,
            _ => false,
        },
{
    if is_failed_transaction(trx) {
        return None;
    }
    let value = match &trx.value {
        Some(v) => from_unsigned_bytes_be(v.as_slice()),
        None => {
            return None;
        },
    };
    if !lt(&BigNum::zero(), &value) {
        return None;
    }
    Some(
        TransferStruct {
            from: copy_bytes(&trx.from),
            to: copy_bytes(&trx.to),
            value,
            ordinal: trx.begin_ordinal,
            algorithm: Algorithm::Transaction,
        },
    )
}

/// The value a call sends, if any: only a nested `CALL` that did not fail and sends a
/// value moves it (top-level calls carry the transaction's value, delegate calls move
/// none).
pub open spec fn call_transfer(call: crate::eth::CallView) -> Option<TransferStructView> {
    if call.state_reverted || call.status_failed || call.status_reverted || call.value is None
        || be_value(call.value->0) == 0 || call.depth == 0 || call.call_type != CALL_TYPE_CALL {
        None
    } else {
        Some(
            TransferStructView {
                from: call.caller,
                to: call.address,
                value: be_value(call.value->0) as int,
                ordinal: call.begin_ordinal,
                algorithm: Algorithm::Call,
            },
        )
    }
}

/// Top-level calls move no value of their own: the value of a call at depth 0 is the
/// transaction's, counted once as the transaction's transfer. A call transfer, when there
/// is one, goes from the call's caller to its address, comes from a nested plain `CALL`
/// that did not fail, and moves the call's value.
pub proof fn lemma_call_transfer_nested(call: crate::eth::CallView)
    ensures
        call.depth == 0 ==> call_transfer(call) is None,
        call_transfer(call) matches Some(t) ==> {
            &&& call.depth > 0
            &&& call.call_type == CALL_TYPE_CALL
            &&& !call.state_reverted && !call.status_failed && !call.status_reverted
            &&& t.from == call.caller
            &&& t.to == call.address
            &&& call.value matches Some(v) && t.value == be_value(v) && t.value > 0
            &&& t.algorithm == Algorithm::Call
        },
{
}

/// The value a call sends, if it is a nested `CALL` that did not fail and sends some.
pub fn get_transfer_from_call(call: &Call) -> (r: Option<TransferStruct>)
    ensures
        match (r, call_transfer(call@)) {
            (Some(t), Some(v)) => t@ == v,
            (None, None) => true,
            _ => false,
        },
        call.depth == 0 ==> r is None,
{
    if is_failed_call(call) {
        return None;
    }
    let value = match &call.value {
        Some(v) => from_unsigned_bytes_be(v.as_slice()),
        None => {
            return None;
        },
    };
    if !lt(&BigNum::zero(), &value) {
        return None;
    }
    if call.depth == 0 {
        return None;
    }
    if call.call_type != CALL_TYPE_CALL {
        return None;
    }
    Some(
        TransferStruct {
            from: copy_bytes(&call.caller),
            to: copy_bytes(&call.address),
            value,
            ordinal: call.begin_ordinal,
            algorithm: Algorithm::Call,
        },
    )
}

/// The transfers paying a transaction's fee: the gas price times the gas used, less the
/// burned part, goes to the block producer, and the base fee times the gas used is burned
/// (sent to the null address); each only when positive.
pub open spec fn fee_transfers(
    trx: crate::eth::TransactionTraceView,
    base_fee_per_gas: int,
    coinbase: Seq<u8>,
) -> Seq<TransferStructView> {
    let fee = opt_value(trx.gas_price) * trx.gas_used;
    let burn = base_fee_per_gas * trx.gas_used;
    let paid = if fee > 0 {
        seq![
            TransferStructView {
                from: trx.from,
                to: coinbase,
                value: fee - burn,
                ordinal: trx.begin_ordinal,
                algorithm: Algorithm::TransactionFee,
            },
        ]
    } else {
        Seq::empty()
    };
    let burned = if burn > 0 {
        seq![
            TransferStructView {
                from: trx.from,
                to: null_address(),
                value: burn,
                ordinal: trx.begin_ordinal,
                algorithm: Algorithm::TransactionFeeBurn,
            },
        ]
    } else {
        Seq::empty()
    };
    paid + burned
}

/// Contents of a list of native transfers.
pub open spec fn transfers_view(v: Seq<TransferStruct>) -> Seq<TransferStructView> {
    v.map_values(|t: TransferStruct| t@)
}

/// The transfers that pay the fee of a transaction.
pub fn get_transfer_from_transaction_fee(
    trx: &TransactionTrace,
    base_fee_per_gas: &BigNum,
    coinbase: &Vec<u8>,
) -> (r: Vec<TransferStruct>)
    ensures
        transfers_view(r@) == fee_transfers(trx@, base_fee_per_gas@, coinbase@),
{
    let mut transfers: Vec<TransferStruct> = Vec::new();
    let gas_price = value_or_zero(&trx.gas_price);
    let gas_used = from_u64(trx.gas_used);
    let transaction_fee = product(&gas_price, &gas_used);
    let burn_fee = product(base_fee_per_gas, &gas_used);
    if lt(&BigNum::zero(), &transaction_fee) {
        transfers.push(
            TransferStruct {
                from: copy_bytes(&trx.from),
                to: copy_bytes(coinbase),
                value: difference(&transaction_fee, &burn_fee),
                ordinal: trx.begin_ordinal,
                algorithm: Algorithm::TransactionFee,
            },
        );
    }
    let ghost paid = transfers_view(transfers@);
    if lt(&BigNum::zero(), &burn_fee) {
        transfers.push(
            TransferStruct {
                from: copy_bytes(&trx.from),
                to: null_address_bytes(),
                value: burn_fee,
                ordinal: trx.begin_ordinal,
                algorithm: Algorithm::TransactionFeeBurn,
            },
        );
    }
    assert(transfers_view(transfers@) =~= fee_transfers(trx@, base_fee_per_gas@, coinbase@));
    transfers
}

/// Together, the transfers paying a transaction's fee move exactly the fee when both are
/// made: what goes to the producer and what is burned add up to the gas price times the
/// gas used.
pub proof fn lemma_fee_transfers_add_up(
    trx: crate::eth::TransactionTraceView,
    base_fee_per_gas: int,
    coinbase: Seq<u8>,
)
    requires
        fee_transfers(trx, base_fee_per_gas, coinbase).len() == 2,
    ensures
        fee_transfers(trx, base_fee_per_gas, coinbase)[0].value + fee_transfers(
            trx,
            base_fee_per_gas,
            coinbase,
        )[1].value == opt_value(trx.gas_price) * trx.gas_used,
{
}

/// Name of a balance change reason (protobuf numbers 0 to 19) in the protobuf definition.
pub open spec fn reason_name(reason: i32) -> Seq<char> {
    if reason == 0 { "REASON_UNKNOWN"@ }
    else if reason == 1 { "REASON_REWARD_MINE_UNCLE"@ }
    else if reason == 2 { "REASON_REWARD_MINE_BLOCK"@ }
    else if reason == 3 { "REASON_DAO_REFUND_CONTRACT"@ }
    else if reason == 4 { "REASON_DAO_ADJUST_BALANCE"@ }
    else if reason == 5 { "REASON_TRANSFER"@ }
    else if reason == 6 { "REASON_GENESIS_BALANCE"@ }
    else if reason == 7 { "REASON_GAS_BUY"@ }
    else if reason == 8 { "REASON_REWARD_TRANSACTION_FEE"@ }
    else if reason == 9 { "REASON_GAS_REFUND"@ }
    else if reason == 10 { "REASON_TOUCH_ACCOUNT"@ }
    else if reason == 11 { "REASON_SUICIDE_REFUND"@ }
    else if reason == 12 { "REASON_CALL_BALANCE_OVERRIDE"@ }
    else if reason == 13 { "REASON_SUICIDE_WITHDRAW"@ }
    else if reason == 14 { "REASON_REWARD_FEE_RESET"@ }
    else if reason == 15 { "REASON_BURN"@ }
    else if reason == 16 { "REASON_WITHDRAWAL"@ }
    else if reason == 17 { "REASON_REWARD_BLOB_FEE"@ }
    else if reason == 18 { "REASON_INCREASE_MINT"@ }
    else { "REASON_REVERT"@ }
}

/// Whether a number is a balance change reason of the protobuf definition.
pub open spec fn is_known_reason(reason: i32) -> bool {
    0 <= reason <= 19
}

/// Calls `Reason::from_i32(..).unwrap().as_str_name()` of `substreams_ethereum`, which
/// panics on an unknown number: the name of the reason, as the table of the protobuf
/// definition gives it.
#[verifier::external_body]
fn reason_str_name(reason: i32) -> (r: String)
    requires
        is_known_reason(reason),
    ensures
        r@ == reason_name(reason),
{
    substreams_ethereum::pb::eth::v2::balance_change::Reason::from_i32(reason).unwrap().as_str_name().into()
}

/// Contents of a balance change record.
pub struct BalanceChangeRecordView {
    pub address: Seq<char>,
    pub old_value: Seq<char>,
    pub new_value: Seq<char>,
    pub reason: Seq<char>,
    pub ordinal: u64,
    pub transaction: Seq<char>,
}

/// A native balance change in text form.
#[derive(Clone, Debug)]
pub struct BalanceChange {
    pub address: String,
    pub old_value: String,
    pub new_value: String,
    pub reason: String,
    pub ordinal: u64,
    pub transaction: String,
}

impl View for BalanceChange {
    type V = BalanceChangeRecordView;

    open spec fn view(&self) -> BalanceChangeRecordView {
        BalanceChangeRecordView {
            address: self.address@,
            old_value: self.old_value@,
            new_value: self.new_value@,
            reason: self.reason@,
            ordinal: self.ordinal,
            transaction: self.transaction@,
        }
    }
}

/// The native balance changes of a block, in text form.
#[derive(Clone, Debug)]
pub struct BalanceChanges {
    pub balance_changes: Vec<BalanceChange>,
}

/// Decimal text of an optional unsigned value, `0` when absent.
pub open spec fn value_text(v: Option<Seq<u8>>) -> Seq<char> {
    match v {
        Some(b) => int_text(be_value(b) as int),
        None => "0"@,
    }
}

/// The record of a balance change made by the transaction whose hash text is `trx`.
pub open spec fn record_of(bc: NativeBalanceChangeView, trx: Seq<char>) -> BalanceChangeRecordView {
    BalanceChangeRecordView {
        address: hex_text(bc.address),
        old_value: value_text(bc.old_value),
        new_value: value_text(bc.new_value),
        reason: reason_name(bc.reason),
        ordinal: bc.ordinal,
        transaction: trx,
    }
}

/// The records of balance changes, in order.
pub open spec fn records_of(bcs: Seq<NativeBalanceChangeView>, trx: Seq<char>) -> Seq<BalanceChangeRecordView>
    decreases bcs.len(),
{
    if bcs.len() == 0 {
        Seq::empty()
    } else {
        records_of(bcs.drop_last(), trx).push(record_of(bcs.last(), trx))
    }
}

/// The records of the gas balance changes among `bcs`, in order.
pub open spec fn gas_records_of(bcs: Seq<NativeBalanceChangeView>, trx: Seq<char>) -> Seq<BalanceChangeRecordView>
    decreases bcs.len(),
{
    if bcs.len() == 0 {
        Seq::empty()
    } else if is_gas_reason(bcs.last().reason) {
        gas_records_of(bcs.drop_last(), trx).push(record_of(bcs.last(), trx))
    } else {
        gas_records_of(bcs.drop_last(), trx)
    }
}

/// The gas records of a list of balance changes are exactly those of its gas buys, gas
/// refunds and transaction fee rewards: each of them is recorded, and every record is that
/// of one of them.
pub proof fn lemma_gas_records_exact(bcs: Seq<NativeBalanceChangeView>, trx: Seq<char>)
    ensures
        forall|k: int|
            0 <= k < bcs.len() && ((#[trigger] bcs[k]).reason == REASON_GAS_BUY || bcs[k].reason == REASON_GAS_REFUND || bcs[k].reason == REASON_REWARD_TRANSACTION_FEE) ==> gas_records_of(bcs, trx).contains(
                record_of(bcs[k], trx),
            ),
        forall|j: int|
            0 <= j < gas_records_of(bcs, trx).len() ==> exists|k: int|
                #![trigger bcs[k]]
                0 <= k < bcs.len() && (bcs[k].reason == REASON_GAS_BUY || bcs[k].reason == REASON_GAS_REFUND || bcs[k].reason == REASON_REWARD_TRANSACTION_FEE) && (#[trigger] gas_records_of(bcs, trx)[j])
                    == record_of(bcs[k], trx),
    decreases bcs.len(),
{
    if bcs.len() > 0 {
        let p = bcs.drop_last();
        lemma_gas_records_exact(p, trx);
        let q = gas_records_of(p, trx);
        let r = gas_records_of(bcs, trx);
        assert forall|k: int|
            0 <= k < bcs.len() && ((#[trigger] bcs[k]).reason == REASON_GAS_BUY || bcs[k].reason == REASON_GAS_REFUND || bcs[k].reason == REASON_REWARD_TRANSACTION_FEE) implies r.contains(record_of(bcs[k], trx)) by {
            if k < p.len() {
                assert(p[k] == bcs[k]);
                let j = choose|j: int| 0 <= j < q.len() && q[j] == record_of(p[k], trx);
                assert(r[j] == q[j]);
            } else {
                assert(r[r.len() - 1] == record_of(bcs[k], trx));
            }
        }
        assert forall|j: int| 0 <= j < gas_records_of(bcs, trx).len() implies exists|k: int|
            #![trigger bcs[k]]
            0 <= k < bcs.len() && (bcs[k].reason == REASON_GAS_BUY || bcs[k].reason == REASON_GAS_REFUND || bcs[k].reason == REASON_REWARD_TRANSACTION_FEE) && (#[trigger] gas_records_of(bcs, trx)[j])
                == record_of(bcs[k], trx) by {
            if j < q.len() {
                assert(r[j] == q[j]);
                let k = choose|k: int| #![trigger p[k]] 0 <= k < p.len() && (p[k].reason == REASON_GAS_BUY || p[k].reason == REASON_GAS_REFUND || p[k].reason == REASON_REWARD_TRANSACTION_FEE) && q[j] == record_of(p[k], trx);
                assert(bcs[k] == p[k]);
            } else {
                let k = bcs.len() - 1;
                assert(is_gas_reason(bcs.last().reason));
                assert(bcs[k] == bcs.last());
                assert(r[j] == record_of(bcs[k], trx));
            }
        }
    } else {
        assert(gas_records_of(bcs, trx).len() == 0);
    }
}

/// The records of the balance changes of the calls that were not reverted, call after call.
pub open spec fn call_records_of(calls: Seq<CallView>, trx: Seq<char>) -> Seq<BalanceChangeRecordView>
    decreases calls.len(),
{
    if calls.len() == 0 {
        Seq::empty()
    } else {
        call_records_of(calls.drop_last(), trx) + if calls.last().state_reverted {
            Seq::empty()
        } else {
            records_of(calls.last().balance_changes, trx)
        }
    }
}

/// The records of a transaction: for a failed or reverted one, first the gas changes of
/// its root call (still recorded in the chain's state); then the changes of its calls
/// that were not reverted.
pub open spec fn trx_records_of(trx: TransactionTraceView) -> Seq<BalanceChangeRecordView> {
    let h = hex_text(trx.hash);
    let failed = trx.status == STATUS_REVERTED || trx.status == STATUS_FAILED;
    (if failed {
        gas_records_of(trx.calls[0].balance_changes, h)
    } else {
        Seq::empty()
    }) + call_records_of(trx.calls, h)
}

/// A failed or reverted transaction still records the gas balance changes of its root call:
/// every gas buy, gas refund and transaction fee reward of the root call is among the
/// transaction's records, made with the transaction's hash.
pub proof fn lemma_failed_transaction_records_gas(trx: TransactionTraceView)
    requires
        trx.status == STATUS_REVERTED || trx.status == STATUS_FAILED,
        trx.calls.len() > 0,
    ensures
        forall|k: int|
            0 <= k < trx.calls[0].balance_changes.len() && ((#[trigger] trx.calls[0].balance_changes[k]).reason == REASON_GAS_BUY || trx.calls[0].balance_changes[k].reason == REASON_GAS_REFUND || trx.calls[0].balance_changes[k].reason == REASON_REWARD_TRANSACTION_FEE) ==> trx_records_of(trx).contains(record_of(trx.calls[0].balance_changes[k], hex_text(trx.hash))),
{
    let h = hex_text(trx.hash);
    let g = gas_records_of(trx.calls[0].balance_changes, h);
    let c = call_records_of(trx.calls, h);
    lemma_gas_records_exact(trx.calls[0].balance_changes, h);
    assert forall|k: int|
        0 <= k < trx.calls[0].balance_changes.len() && ((#[trigger] trx.calls[0].balance_changes[k]).reason == REASON_GAS_BUY || trx.calls[0].balance_changes[k].reason == REASON_GAS_REFUND || trx.calls[0].balance_changes[k].reason == REASON_REWARD_TRANSACTION_FEE) implies trx_records_of(trx).contains(record_of(trx.calls[0].balance_changes[k], h)) by {
        let e = record_of(trx.calls[0].balance_changes[k], h);
        let j = choose|j: int| 0 <= j < g.len() && g[j] == e;
        assert(trx_records_of(trx) == g + c);
        assert((g + c)[j] == e);
    }
}

/// The records of the transactions, transaction after transaction.
pub open spec fn trxs_records_of(trxs: Seq<TransactionTraceView>) -> Seq<BalanceChangeRecordView>
    decreases trxs.len(),
{
    if trxs.len() == 0 {
        Seq::empty()
    } else {
        trxs_records_of(trxs.drop_last()) + trx_records_of(trxs.last())
    }
}

/// Every reason that a transaction's records read is known: a failed or reverted
/// transaction has a root call whose reasons are all known, and so are those of its calls
/// that were not reverted.
pub open spec fn trx_reasons_known(trx: TransactionTraceView) -> bool {
    &&& (trx.status == STATUS_REVERTED || trx.status == STATUS_FAILED) ==> {
        &&& trx.calls.len() > 0
        &&& forall|k: int| 0 <= k < trx.calls[0].balance_changes.len() ==> is_known_reason(
            #[trigger] trx.calls[0].balance_changes[k].reason,
        )
    }
    &&& forall|c: int, k: int| 0 <= c < trx.calls.len() && !trx.calls[c].state_reverted && 0 <= k
        < trx.calls[c].balance_changes.len() ==> is_known_reason(
        #[trigger] trx.calls[c].balance_changes[k].reason,
    )
}

/// Contents of a list of balance change records.
pub open spec fn records_view(v: Seq<BalanceChange>) -> Seq<BalanceChangeRecordView> {
    v.map_values(|r: BalanceChange| r@)
}

/// The decimal text of an optional unsigned value, `0` when absent.
fn value_string(v: &Option<Vec<u8>>) -> (r: String)
    ensures
        r@ == value_text(opt_bytes_view(*v)),
{
    match v {
        Some(b) => to_decimal_string(&from_unsigned_bytes_be(b.as_slice())),
        None => {
            proof {
                reveal_strlit("0");
            }
            String::from_str("0")
        },
    }
}

/// The record of a balance change of the transaction whose hash text is `trx`.
fn to_record(bc: &NativeBalanceChange, trx: &String) -> (r: BalanceChange)
    requires
        is_known_reason(bc.reason),
    ensures
        r@ == record_of(bc@, trx@),
{
    BalanceChange {
        address: encode(bc.address.as_slice()),
        old_value: value_string(&bc.old_value),
        new_value: value_string(&bc.new_value),
        reason: reason_str_name(bc.reason),
        ordinal: bc.ordinal,
        transaction: trx.clone(),
    }
}

/// Appends the records of the balance changes (only the gas ones when `gas_only`).
fn push_records(out: &mut Vec<BalanceChange>, bcs: &Vec<NativeBalanceChange>, trx: &String, gas_only: bool)
    requires
        forall|k: int| 0 <= k < bcs.len() ==> is_known_reason(#[trigger] bcs@[k].reason),
    ensures
        records_view(final(out)@) == records_view(old(out)@) + if gas_only {
            gas_records_of(native_changes_view(bcs@), trx@)
        } else {
            records_of(native_changes_view(bcs@), trx@)
        },
{
    let ghost start = records_view(out@);
    let ghost bv = native_changes_view(bcs@);
    let mut i: usize = 0;
    while i < bcs.len()
        invariant
            bv == native_changes_view(bcs@),
            forall|k: int| 0 <= k < bcs.len() ==> is_known_reason(#[trigger] bcs@[k].reason),
            i <= bcs.len(),
            records_view(out@) == start + if gas_only {
                gas_records_of(bv.subrange(0, i as int), trx@)
            } else {
                records_of(bv.subrange(0, i as int), trx@)
            },
        decreases bcs.len() - i,
    {
        let bc = &bcs[i];
        proof {
            assert(bv.subrange(0, i + 1).drop_last() =~= bv.subrange(0, i as int));
            assert(bv[i as int] == bc@);
            assert(is_known_reason(bcs@[i as int].reason));
        }
        let ghost prev = records_view(out@);
        if !gas_only || is_gas_balance_change(bc) {
            let rec = to_record(bc, trx);
            out.push(rec);
            proof {
                assert(records_view(out@) =~= prev.push(record_of(bv[i as int], trx@)));
            }
        }
        i += 1;
    }
    assert(bv.subrange(0, bcs.len() as int) =~= bv);
}

/// The native balance changes of a block in text form: those at block level, then for
/// each transaction those its records give (see `trx_records_of`).
pub fn map_balance_changes_from_block(block: Block) -> (r: Vec<BalanceChange>)
    requires
        forall|k: int| 0 <= k < block.balance_changes.len() ==> is_known_reason(#[trigger] block.balance_changes@[k].reason),
        forall|t: int| 0 <= t < block.transaction_traces.len() ==> trx_reasons_known(#[trigger] block.transaction_traces@[t]@),
    ensures
        records_view(r@) == records_of(native_changes_view(block.balance_changes@), Seq::empty())
            + trxs_records_of(trxs_view(block.transaction_traces@)),
{
    let mut out: Vec<BalanceChange> = Vec::new();
    proof {
        reveal_strlit("");
    }
    let empty = String::from_str("");
    assert(empty@ =~= Seq::<char>::empty());
    push_records(&mut out, &block.balance_changes, &empty, false);
    let ghost head = records_view(out@);
    let ghost tv = trxs_view(block.transaction_traces@);
    let mut i: usize = 0;
    while i < block.transaction_traces.len()
        invariant
            tv == trxs_view(block.transaction_traces@),
            forall|t: int| 0 <= t < block.transaction_traces.len() ==> trx_reasons_known(#[trigger] block.transaction_traces@[t]@),
            i <= block.transaction_traces.len(),
            records_view(out@) == head + trxs_records_of(tv.subrange(0, i as int)),
        decreases block.transaction_traces.len() - i,
    {
        let trx = &block.transaction_traces[i];
        proof {
            assert(tv.subrange(0, i + 1).drop_last() =~= tv.subrange(0, i as int));
            assert(tv[i as int] == trx@);
            assert(trx_reasons_known(block.transaction_traces@[i as int]@));
        }
        let ghost before = records_view(out@);
        let h = encode(trx.hash.as_slice());
        let failed = trx.status == STATUS_REVERTED || trx.status == STATUS_FAILED;
        if failed {
            let root_call = &trx.calls[0];
            proof {
                assert(trx@.calls[0] == root_call@);
                assert forall|k: int| 0 <= k < root_call.balance_changes.len() implies is_known_reason(#[trigger] root_call.balance_changes@[k].reason) by {
                    assert(trx@.calls[0].balance_changes[k] == root_call.balance_changes@[k]@);
                    assert(is_known_reason(trx@.calls[0].balance_changes[k].reason));
                }
            }
            push_records(&mut out, &root_call.balance_changes, &h, true);
        }
        let ghost mid = records_view(out@);
        let ghost cv = trx@.calls;
        let mut j: usize = 0;
        while j < trx.calls.len()
            invariant
                cv == calls_view(trx.calls@),
                trx_reasons_known(trx@),
                j <= trx.calls.len(),
                records_view(out@) == mid + call_records_of(cv.subrange(0, j as int), h@),
            decreases trx.calls.len() - j,
        {
            let call = &trx.calls[j];
            proof {
                assert(cv.subrange(0, j + 1).drop_last() =~= cv.subrange(0, j as int));
                assert(cv[j as int] == call@);
            }
            let ghost prev = records_view(out@);
            if !call.state_reverted {
                proof {
                    assert forall|k: int| 0 <= k < call.balance_changes.len() implies is_known_reason(#[trigger] call.balance_changes@[k].reason) by {
                        assert(trx@.calls[j as int].balance_changes[k] == call.balance_changes@[k]@);
                        assert(is_known_reason(trx@.calls[j as int].balance_changes[k].reason));
                    }
                }
                push_records(&mut out, &call.balance_changes, &h, false);
            }
            proof {
                assert(records_view(out@) =~= mid + call_records_of(cv.subrange(0, j + 1), h@));
            }
            j += 1;
        }
        proof {
            assert(cv.subrange(0, trx.calls.len() as int) =~= cv);
            assert(records_view(out@) =~= head + trxs_records_of(tv.subrange(0, i + 1)));
        }
        i += 1;
    }
    assert(tv.subrange(0, block.transaction_traces.len() as int) =~= tv);
    out
}

/// The native balance changes of a block, as the module's output message.
pub fn map_balance_changes(block: Block) -> (r: BalanceChanges)
    requires
        forall|k: int| 0 <= k < block.balance_changes.len() ==> is_known_reason(#[trigger] block.balance_changes@[k].reason),
        forall|t: int| 0 <= t < block.transaction_traces.len() ==> trx_reasons_known(#[trigger] block.transaction_traces@[t]@),
    ensures
        records_view(r.balance_changes@) == records_of(native_changes_view(block.balance_changes@), Seq::empty())
            + trxs_records_of(trxs_view(block.transaction_traces@)),
{
    BalanceChanges { balance_changes: map_balance_changes_from_block(block) }
}

} // verus!
