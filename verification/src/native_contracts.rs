//! Contract creations: the code changes of the calls that create contracts.
use crate::eth::{
    calls_view, copy_bytes, trxs_view, Block, Call, CallView, CodeChangeView, TransactionTrace, TransactionTraceView, STATUS_SUCCEEDED,
};
use vstd::prelude::*;

verus! {

/// Protobuf number of a call that creates a contract.
pub const CALL_TYPE_CREATE: i32 = 5;

/// Contents of a contract creation.
pub struct ContractCreationView {
    pub transaction_id: Seq<u8>,
    pub from: Seq<u8>,
    pub to: Seq<u8>,
    pub caller: Seq<u8>,
    pub ordinal: u64,
    pub address: Seq<u8>,
    pub hash: Seq<u8>,
}

/// The creation of a contract.
#[derive(Clone, Debug)]
pub struct ContractCreation {
    // -- transaction --
    pub transaction_id: Vec<u8>,
    pub from: Vec<u8>,
    pub to: Vec<u8>,
    // -- call --
    pub caller: Vec<u8>,
    // -- ordering --
    pub ordinal: u64,
    // -- contract --
    pub address: Vec<u8>,
    /// Hash of the contract's code.
    pub hash: Vec<u8>,
}

impl View for ContractCreation {
    type V = ContractCreationView;

    open spec fn view(&self) -> ContractCreationView {
        ContractCreationView {
            transaction_id: self.transaction_id@,
            from: self.from@,
            to: self.to@,
            caller: self.caller@,
            ordinal: self.ordinal,
            address: self.address@,
            hash: self.hash@,
        }
    }
}

/// The contract creations of a block.
#[derive(Clone, Debug)]
pub struct Events {
    pub contract_creations: Vec<ContractCreation>,
}

/// Contents of a list of contract creations.
pub open spec fn creations_view(v: Seq<ContractCreation>) -> Seq<ContractCreationView> {
    v.map_values(|c: ContractCreation| c@)
}

/// The creation that a code change of a creating call records.
pub open spec fn creation_record(trx: TransactionTraceView, call: CallView, cc: CodeChangeView) -> ContractCreationView {
    ContractCreationView {
        transaction_id: trx.hash,
        from: trx.from,
        to: trx.to,
        caller: call.caller,
        ordinal: cc.ordinal,
        address: cc.address,
        hash: cc.new_hash,
    }
}

/// The creations recorded by the calls of a transaction: one per code change of each call
/// that creates a contract, call after call.
pub open spec fn call_creations(trx: TransactionTraceView, calls: Seq<CallView>) -> Seq<ContractCreationView>
    decreases calls.len(),
{
    if calls.len() == 0 {
        Seq::empty()
    } else {
        let c = calls.last();
        call_creations(trx, calls.drop_last()) + if c.call_type == CALL_TYPE_CREATE {
            c.code_changes.map_values(|cc: CodeChangeView| creation_record(trx, c, cc))
        } else {
            Seq::empty()
        }
    }
}

/// The creations of a block: those of its succeeded transactions, in order.
pub open spec fn block_creations(trxs: Seq<TransactionTraceView>) -> Seq<ContractCreationView>
    decreases trxs.len(),
{
    if trxs.len() == 0 {
        Seq::empty()
    } else {
        let t = trxs.last();
        block_creations(trxs.drop_last()) + if t.status == STATUS_SUCCEEDED {
            call_creations(t, t.calls)
        } else {
            Seq::empty()
        }
    }
}

/// Every creation recorded by a transaction's calls carries that transaction: its hash,
/// its sender as `from` and its recipient as `to`; and it comes from a creating call, whose
/// caller it names.
pub proof fn lemma_call_creations_carry_transaction(trx: TransactionTraceView, calls: Seq<CallView>)
    ensures
        forall|k: int|
            0 <= k < call_creations(trx, calls).len() ==> {
                let c = #[trigger] call_creations(trx, calls)[k];
                &&& c.transaction_id == trx.hash
                &&& c.from == trx.from
                &&& c.to == trx.to
                &&& exists|j: int| #![trigger calls[j]] 0 <= j < calls.len() && calls[j].call_type == CALL_TYPE_CREATE
                    && c.caller == calls[j].caller
            },
    decreases calls.len(),
{
    if calls.len() > 0 {
        let p = calls.drop_last();
        let last = calls.last();
        lemma_call_creations_carry_transaction(trx, p);
        let a = call_creations(trx, p);
        let b = if last.call_type == CALL_TYPE_CREATE {
            last.code_changes.map_values(|cc: CodeChangeView| creation_record(trx, last, cc))
        } else {
            Seq::empty()
        };
        assert forall|k: int| 0 <= k < call_creations(trx, calls).len() implies {
            let c = #[trigger] call_creations(trx, calls)[k];
            &&& c.transaction_id == trx.hash
            &&& c.from == trx.from
            &&& c.to == trx.to
            &&& exists|j: int| #![trigger calls[j]] 0 <= j < calls.len() && calls[j].call_type == CALL_TYPE_CREATE
                && c.caller == calls[j].caller
        } by {
            if k < a.len() {
                assert(call_creations(trx, calls)[k] == a[k]);
                let j = choose|j: int| #![trigger p[j]] 0 <= j < p.len() && p[j].call_type == CALL_TYPE_CREATE
                    && a[k].caller == p[j].caller;
                assert(calls[j] == p[j]);
            } else {
                assert(call_creations(trx, calls)[k] == b[k - a.len()]);
                assert(calls[calls.len() - 1] == last);
            }
        }
    }
}

/// Whether a creation was made in a transaction that succeeded: it holds the
/// transaction's hash, its sender as `from` and its recipient as `to`.
pub open spec fn made_in(c: ContractCreationView, trx: TransactionTraceView) -> bool {
    &&& trx.status == STATUS_SUCCEEDED
    &&& c.transaction_id == trx.hash
    &&& c.from == trx.from
    &&& c.to == trx.to
}

/// Whether a creation was made in one of the transactions.
pub open spec fn has_origin(trxs: Seq<TransactionTraceView>, c: ContractCreationView) -> bool {
    exists|t: int| 0 <= t < trxs.len() && #[trigger] made_in(c, trxs[t])
}

proof fn lemma_creation_made_in(trxs: Seq<TransactionTraceView>, k: int)
    requires
        0 <= k < block_creations(trxs).len(),
    ensures
        exists|t: int| 0 <= t < trxs.len() && #[trigger] made_in(block_creations(trxs)[k], trxs[t]),
    decreases trxs.len(),
{
    let p = trxs.drop_last();
    let last = trxs.last();
    let a = block_creations(p);
    if k < a.len() {
        lemma_creation_made_in(p, k);
        assert(block_creations(trxs)[k] == a[k]);
        let t = choose|t: int| 0 <= t < p.len() && #[trigger] made_in(a[k], p[t]);
        assert(trxs[t] == p[t]);
        assert(made_in(block_creations(trxs)[k], trxs[t]));
    } else {
        lemma_call_creations_carry_transaction(last, last.calls);
        assert(last.status == STATUS_SUCCEEDED);
        assert(block_creations(trxs)[k] == call_creations(last, last.calls)[k - a.len()]);
        let t = trxs.len() - 1;
        assert(trxs[t] == last);
        assert(made_in(block_creations(trxs)[k], trxs[t]));
    }
}

/// Every creation of a block was made in one of its succeeded transactions and carries
/// that transaction's hash, sender (`from`) and recipient (`to`).
pub proof fn lemma_creations_carry_transaction(trxs: Seq<TransactionTraceView>)
    ensures
        forall|k: int|
            0 <= k < block_creations(trxs).len() ==> #[trigger] has_origin(trxs, block_creations(trxs)[k]),
{
    assert forall|k: int| 0 <= k < block_creations(trxs).len() implies #[trigger] has_origin(trxs, block_creations(trxs)[k]) by {
        lemma_creation_made_in(trxs, k);
    }
}

/// Appends the creations recorded by the code changes of a creating call.
fn push_call_creations(out: &mut Vec<ContractCreation>, trx: &TransactionTrace, call: &Call)
    ensures
        creations_view(final(out)@) == creations_view(old(out)@) + call@.code_changes.map_values(
            |cc: CodeChangeView| creation_record(trx@, call@, cc),
        ),
{
    let ghost start = creations_view(out@);
    let ghost target = call@.code_changes.map_values(|cc: CodeChangeView| creation_record(trx@, call@, cc));
    let mut k: usize = 0;
    while k < call.code_changes.len()
        invariant
            k <= call.code_changes.len(),
            target == call@.code_changes.map_values(|cc: CodeChangeView| creation_record(trx@, call@, cc)),
            creations_view(out@) == start + target.take(k as int),
        decreases call.code_changes.len() - k,
    {
        let cc = &call.code_changes[k];
        let ghost before = creations_view(out@);
        out.push(ContractCreation {
            transaction_id: copy_bytes(&trx.hash),
            from: copy_bytes(&trx.from),
            to: copy_bytes(&trx.to),
            caller: copy_bytes(&call.caller),
            ordinal: cc.ordinal,
            address: copy_bytes(&cc.address),
            hash: copy_bytes(&cc.new_hash),
        });
        proof {
            assert(call@.code_changes[k as int] == cc@);
            assert(creations_view(out@) =~= before.push(target[k as int]));
            assert(target.take(k + 1) =~= target.take(k as int).push(target[k as int]));
        }
        k += 1;
    }
    assert(target.take(call.code_changes.len() as int) =~= target);
}

/// The contract creations of the block: for each succeeded transaction and each of its
/// calls that creates a contract, one creation per code change of the call.
pub fn map_events(block: &Block) -> (r: Events)
    ensures
        creations_view(r.contract_creations@) == block_creations(trxs_view(block.transaction_traces@)),
        forall|k: int|
            0 <= k < r.contract_creations.len() ==> has_origin(
                trxs_view(block.transaction_traces@),
                (#[trigger] r.contract_creations@[k])@,
            ),
{
    let ghost trxs = trxs_view(block.transaction_traces@);
    let mut out: Vec<ContractCreation> = Vec::new();
    let mut i: usize = 0;
    while i < block.transaction_traces.len()
        invariant
            trxs == trxs_view(block.transaction_traces@),
            i <= block.transaction_traces.len(),
            creations_view(out@) == block_creations(trxs.take(i as int)),
        decreases block.transaction_traces.len() - i,
    {
        let trx = &block.transaction_traces[i];
        proof {
            assert(trxs.take(i + 1).drop_last() =~= trxs.take(i as int));
            assert(trxs[i as int] == trx@);
        }
        if trx.status == STATUS_SUCCEEDED {
            let ghost before = creations_view(out@);
            let ghost cv = calls_view(trx.calls@);
            let mut j: usize = 0;
            while j < trx.calls.len()
                invariant
                    cv == calls_view(trx.calls@),
                    j <= trx.calls.len(),
                    creations_view(out@) == before + call_creations(trx@, cv.take(j as int)),
                decreases trx.calls.len() - j,
            {
                let call = &trx.calls[j];
                proof {
                    assert(cv.take(j + 1).drop_last() =~= cv.take(j as int));
                    assert(cv[j as int] == call@);
                }
                if call.call_type == CALL_TYPE_CREATE {
                    push_call_creations(&mut out, trx, call);
                }
                j += 1;
            }
            proof {
                assert(cv.take(trx.calls.len() as int) =~= cv);
            }
        }
        i += 1;
    }
    assert(trxs.take(block.transaction_traces.len() as int) =~= trxs);
    proof {
        lemma_creations_carry_transaction(trxs);
        assert forall|k: int| 0 <= k < out.len() implies has_origin(trxs, (#[trigger] out@[k])@) by {
            assert(creations_view(out@)[k] == out@[k]@);
        }
    }
    Events { contract_creations: out }
}

} // verus!
