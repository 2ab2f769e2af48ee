//! Native balances read by RPC: the accounts a block touches.
use crate::distinct::{distinct_bytes, distinct_of};
use crate::eth::{bytes_list_view, calls_view, copy_bytes, trxs_view, Block, Call, CallView, LogView, TransactionTraceView};
use vstd::prelude::*;

verus! {

/// The addresses of the logs, in order.
pub open spec fn log_addresses(logs: Seq<LogView>) -> Seq<Seq<u8>> {
    logs.map_values(|l: LogView| l.address)
}

/// The accounts a call touches: the called address, the caller, the delegate when there
/// is one, then the address of each log.
pub open spec fn call_accounts(call: CallView) -> Seq<Seq<u8>> {
    seq![call.address, call.caller] + (match call.address_delegates_to {
        Some(d) => seq![d],
        None => Seq::empty(),
    }) + log_addresses(call.logs)
}

/// The accounts the calls touch, call after call.
pub open spec fn calls_accounts(calls: Seq<CallView>) -> Seq<Seq<u8>>
    decreases calls.len(),
{
    if calls.len() == 0 {
        Seq::empty()
    } else {
        calls_accounts(calls.drop_last()) + call_accounts(calls.last())
    }
}

/// The accounts the transactions touch: for each, the sender and the receiver, then the
/// accounts of its calls.
pub open spec fn trxs_accounts(trxs: Seq<TransactionTraceView>) -> Seq<Seq<u8>>
    decreases trxs.len(),
{
    if trxs.len() == 0 {
        Seq::empty()
    } else {
        let t = trxs.last();
        trxs_accounts(trxs.drop_last()) + seq![t.from, t.to] + calls_accounts(t.calls)
    }
}

fn push_bytes(out: &mut Vec<Vec<u8>>, v: &Vec<u8>)
    ensures
        bytes_list_view(final(out)@) == bytes_list_view(old(out)@).push(v@),
{
    out.push(copy_bytes(v));
    assert(bytes_list_view(out@) =~= bytes_list_view(old(out)@).push(v@));
}

fn push_call_accounts(out: &mut Vec<Vec<u8>>, call: &Call)
    ensures
        bytes_list_view(final(out)@) == bytes_list_view(old(out)@) + call_accounts(call@),
{
    let ghost start = bytes_list_view(out@);
    push_bytes(out, &call.address);
    push_bytes(out, &call.caller);
    if let Some(d) = &call.address_delegates_to {
        push_bytes(out, d);
    }
    let ghost head = bytes_list_view(out@);
    proof {
        assert(head =~= start + (seq![call@.address, call@.caller] + (match call@.address_delegates_to {
            Some(d) => seq![d],
            None => Seq::<Seq<u8>>::empty(),
        })));
    }
    let ghost la = log_addresses(call@.logs);
    let mut k: usize = 0;
    while k < call.logs.len()
        invariant
            k <= call.logs.len(),
            la == log_addresses(call@.logs),
            bytes_list_view(out@) == head + la.take(k as int),
        decreases call.logs.len() - k,
    {
        proof {
            assert(call@.logs[k as int] == call.logs@[k as int]@);
            assert(la.take(k + 1) =~= la.take(k as int).push(call.logs@[k as int].address@));
        }
        push_bytes(out, &call.logs[k].address);
        k += 1;
    }
    assert(la.take(call.logs.len() as int) =~= la);
    assert(bytes_list_view(out@) =~= start + call_accounts(call@));
}

/// The accounts the transactions of the block touch, each once, in order of first
/// occurrence: senders and receivers, then for each call (failed ones too) the called
/// address, the caller, the delegate, and the addresses of its logs.
pub fn collect_accounts(block: &Block) -> (r: Vec<Vec<u8>>)
    ensures
        bytes_list_view(r@) == distinct_of(trxs_accounts(trxs_view(block.transaction_traces@))),
{
    let ghost trxs = trxs_view(block.transaction_traces@);
    let mut all: Vec<Vec<u8>> = Vec::new();
    let mut i: usize = 0;
    while i < block.transaction_traces.len()
        invariant
            trxs == trxs_view(block.transaction_traces@),
            i <= block.transaction_traces.len(),
            bytes_list_view(all@) == trxs_accounts(trxs.take(i as int)),
        decreases block.transaction_traces.len() - i,
    {
        let trx = &block.transaction_traces[i];
        proof {
            assert(trxs.take(i + 1).drop_last() =~= trxs.take(i as int));
            assert(trxs[i as int] == trx@);
        }
        push_bytes(&mut all, &trx.from);
        push_bytes(&mut all, &trx.to);
        let ghost head = bytes_list_view(all@);
        let ghost cv = calls_view(trx.calls@);
        let mut j: usize = 0;
        while j < trx.calls.len()
            invariant
                cv == calls_view(trx.calls@),
                j <= trx.calls.len(),
                bytes_list_view(all@) == head + calls_accounts(cv.take(j as int)),
            decreases trx.calls.len() - j,
        {
            proof {
                assert(cv.take(j + 1).drop_last() =~= cv.take(j as int));
                assert(cv[j as int] == trx.calls@[j as int]@);
            }
            push_call_accounts(&mut all, &trx.calls[j]);
            j += 1;
        }
        proof {
            assert(cv.take(trx.calls.len() as int) =~= cv);
            assert(bytes_list_view(all@) =~= trxs_accounts(trxs.take(i as int)) + seq![trx@.from, trx@.to] + calls_accounts(trx@.calls));
        }
        i += 1;
    }
    assert(trxs.take(block.transaction_traces.len() as int) =~= trxs);
    distinct_bytes(&all)
}

/// The answer of the RPC call for one account's balance.
#[derive(Clone, Debug)]
pub struct BalanceResponse {
    pub failed: bool,
    /// The balance, unsigned big-endian bytes.
    pub balance: Vec<u8>,
}

/// The balances the RPC calls answered: for each account whose call did not fail, in
/// order, its balance read as an unsigned big-endian value.
pub open spec fn answered(owners: Seq<Seq<u8>>, responses: Seq<BalanceResponse>) -> Seq<(Seq<u8>, int)>
    decreases owners.len(),
{
    if owners.len() == 0 {
        Seq::empty()
    } else {
        let n = owners.len() - 1;
        let rest = answered(owners.drop_last(), responses);
        if responses[n].failed {
            rest
        } else {
            rest.push((owners[n], crate::bignum::be_value(responses[n].balance@) as int))
        }
    }
}

/// The balance of each account whose RPC call answered, from the responses in the order
/// of the accounts.
pub fn balances_of_responses(owners: &Vec<Vec<u8>>, responses: &Vec<BalanceResponse>) -> (r: Vec<(Vec<u8>, crate::bignum::BigNum)>)
    requires
        responses.len() >= owners.len(),
    ensures
        r@.map_values(|p: (Vec<u8>, crate::bignum::BigNum)| (p.0@, p.1@)) == answered(bytes_list_view(owners@), responses@),
{
    let ghost ov = bytes_list_view(owners@);
    let mut out: Vec<(Vec<u8>, crate::bignum::BigNum)> = Vec::new();
    let mut i: usize = 0;
    while i < owners.len()
        invariant
            ov == bytes_list_view(owners@),
            responses.len() >= owners.len(),
            i <= owners.len(),
            out@.map_values(|p: (Vec<u8>, crate::bignum::BigNum)| (p.0@, p.1@)) == answered(ov.take(i as int), responses@),
        decreases owners.len() - i,
    {
        proof {
            assert(ov.take(i + 1).drop_last() =~= ov.take(i as int));
            assert(ov.take(i + 1)[i as int] == owners@[i as int]@);
        }
        let response = &responses[i];
        if !response.failed {
            let ghost before = out@.map_values(|p: (Vec<u8>, crate::bignum::BigNum)| (p.0@, p.1@));
            let value = crate::bignum::from_unsigned_bytes_be(response.balance.as_slice());
            let ghost entry = (owners@[i as int]@, value@);
            out.push((copy_bytes(&owners[i]), value));
            assert(out@.map_values(|p: (Vec<u8>, crate::bignum::BigNum)| (p.0@, p.1@)) =~= before.push(entry));
        }
        i += 1;
    }
    assert(ov.take(owners.len() as int) =~= ov);
    out
}

} // verus!
