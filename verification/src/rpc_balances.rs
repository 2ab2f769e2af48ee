//! Balances that the ERC-20 events of a block imply but do not hold: for each contract
//! with transfers, the holder whose balance is to be read by RPC.
use crate::bignum::{int_text, to_decimal_string, BigNum};
use crate::eth::copy_bytes;
use crate::keccak_map::bytes_eq;
use crate::native::{null_address, Algorithm};
use vstd::prelude::*;

verus! {

/// A balance change of the ERC-20 events, as far as the search for missing balances reads
/// it.
#[derive(Clone, Debug)]
pub struct IndexedBalanceChange {
    pub contract: Vec<u8>,
    pub owner: Vec<u8>,
    pub ordinal: u64,
    pub index: u64,
}

/// A transfer of the ERC-20 events, as far as the search for missing balances reads it.
#[derive(Clone, Debug)]
pub struct IndexedTransfer {
    pub contract: Vec<u8>,
    pub from: Vec<u8>,
    pub to: Vec<u8>,
    pub ordinal: u64,
    pub index: u64,
}

/// The ERC-20 events of a block.
#[derive(Clone, Debug)]
pub struct IndexedEvents {
    pub balance_changes: Vec<IndexedBalanceChange>,
    pub transfers: Vec<IndexedTransfer>,
}

/// Whether some balance change of the list concerns the contract `key`.
pub open spec fn known(bcs: Seq<IndexedBalanceChange>, key: Seq<u8>) -> bool {
    exists|k: int| 0 <= k < bcs.len() && (#[trigger] bcs[k]).contract@ == key
}

/// Sets the holder of `contract` in a list of (contract, holder) pairs: replaces the
/// holder where the contract is, or appends the pair.
pub open spec fn put(d: Seq<(Seq<u8>, Seq<u8>)>, contract: Seq<u8>, holder: Seq<u8>) -> Seq<(Seq<u8>, Seq<u8>)> {
    if exists|i: int| 0 <= i < d.len() && (#[trigger] d[i]).0 == contract {
        d.update(choose|i: int| 0 <= i < d.len() && (#[trigger] d[i]).0 == contract, (contract, holder))
    } else {
        d.push((contract, holder))
    }
}

/// What a transfer does to the pairs: for a contract with a known balance change, its
/// sender and then its receiver when the balance changes know them as a contract; for any
/// other contract, the sender and then the receiver.
pub open spec fn note_transfer(
    bcs: Seq<IndexedBalanceChange>,
    d: Seq<(Seq<u8>, Seq<u8>)>,
    t: IndexedTransfer,
) -> Seq<(Seq<u8>, Seq<u8>)> {
    if known(bcs, t.contract@) {
        let d1 = if known(bcs, t.from@) {
            put(d, t.contract@, t.from@)
        } else {
            d
        };
        if known(bcs, t.to@) {
            put(d1, t.contract@, t.to@)
        } else {
            d1
        }
    } else {
        put(put(d, t.contract@, t.from@), t.contract@, t.to@)
    }
}

/// The (contract, holder) pairs after the transfers, in order.
pub open spec fn missing_pairs(bcs: Seq<IndexedBalanceChange>, ts: Seq<IndexedTransfer>) -> Seq<(Seq<u8>, Seq<u8>)>
    decreases ts.len(),
{
    if ts.len() == 0 {
        Seq::empty()
    } else {
        note_transfer(bcs, missing_pairs(bcs, ts.drop_last()), ts.last())
    }
}

/// No contract occurs twice among the pairs.
pub open spec fn contracts_distinct(d: Seq<(Seq<u8>, Seq<u8>)>) -> bool {
    forall|a: int, b: int| 0 <= a < b < d.len() ==> (#[trigger] d[a]).0 != (#[trigger] d[b]).0
}

/// Contents of a list of pairs.
pub open spec fn pairs_view(v: Seq<(Vec<u8>, Vec<u8>)>) -> Seq<(Seq<u8>, Seq<u8>)> {
    v.map_values(|p: (Vec<u8>, Vec<u8>)| (p.0@, p.1@))
}

/// Whether a balance change of the list concerns the contract `key`.
fn is_known(bcs: &Vec<IndexedBalanceChange>, key: &Vec<u8>) -> (r: bool)
    ensures
        r == known(bcs@, key@),
{
    let mut i: usize = 0;
    while i < bcs.len()
        invariant
            i <= bcs.len(),
            forall|k: int| 0 <= k < i ==> (#[trigger] bcs@[k]).contract@ != key@,
        decreases bcs.len() - i,
    {
        if bytes_eq(bcs[i].contract.as_slice(), key.as_slice()) {
            return true;
        }
        i += 1;
    }
    false
}

/// Sets the holder of `contract`.
fn put_pair(out: &mut Vec<(Vec<u8>, Vec<u8>)>, contract: &Vec<u8>, holder: &Vec<u8>)
    requires
        contracts_distinct(pairs_view(old(out)@)),
    ensures
        contracts_distinct(pairs_view(final(out)@)),
        pairs_view(final(out)@) == put(pairs_view(old(out)@), contract@, holder@),
{
    let ghost d = pairs_view(out@);
    let mut i: usize = 0;
    while i < out.len()
        invariant
            d == pairs_view(out@),
            d == pairs_view(old(out)@),
            contracts_distinct(d),
            i <= out.len(),
            forall|k: int| 0 <= k < i ==> (#[trigger] d[k]).0 != contract@,
        decreases out.len() - i,
    {
        proof {
            assert(d[i as int] == (out@[i as int].0@, out@[i as int].1@));
        }
        if bytes_eq(out[i].0.as_slice(), contract.as_slice()) {
            proof {
                let c = choose|j: int| 0 <= j < d.len() && (#[trigger] d[j]).0 == contract@;
                if c != i {
                    if c < i {
                        assert(d[c].0 != d[i as int].0);
                    } else {
                        assert(d[i as int].0 != d[c].0);
                    }
                }
            }
            out.set(i, (copy_bytes(contract), copy_bytes(holder)));
            proof {
                assert(pairs_view(out@) =~= d.update(i as int, (contract@, holder@)));
                let r = pairs_view(out@);
                assert forall|a: int, b: int| 0 <= a < b < r.len() implies (#[trigger] r[a]).0 != (#[trigger] r[b]).0 by {
                    if a != i && b != i {
                        assert(d[a].0 != d[b].0);
                    }
                }
            }
            return;
        }
        i += 1;
    }
    out.push((copy_bytes(contract), copy_bytes(holder)));
    proof {
        assert(pairs_view(out@) =~= d.push((contract@, holder@)));
        let r = pairs_view(out@);
        assert forall|a: int, b: int| 0 <= a < b < r.len() implies (#[trigger] r[a]).0 != (#[trigger] r[b]).0 by {
            if b == d.len() {
                assert(r[a] == d[a]);
            }
        }
    }
}

/// The holder to read for each contract with transfers, one pair per contract: for a
/// contract whose balance changes are known, the last sender or receiver of its transfers
/// that the balance changes also know as a contract; for any other contract, the last
/// receiver of its transfers.
pub fn find_missing_balances(erc20: &IndexedEvents) -> (r: Vec<(Vec<u8>, Vec<u8>)>)
    ensures
        pairs_view(r@) == missing_pairs(erc20.balance_changes@, erc20.transfers@),
        contracts_distinct(pairs_view(r@)),
{
    let ghost bcs = erc20.balance_changes@;
    let ghost ts = erc20.transfers@;
    let mut out: Vec<(Vec<u8>, Vec<u8>)> = Vec::new();
    let mut i: usize = 0;
    while i < erc20.transfers.len()
        invariant
            bcs == erc20.balance_changes@,
            ts == erc20.transfers@,
            i <= ts.len(),
            contracts_distinct(pairs_view(out@)),
            pairs_view(out@) == missing_pairs(bcs, ts.take(i as int)),
        decreases ts.len() - i,
    {
        let t = &erc20.transfers[i];
        proof {
            assert(ts.take(i + 1).drop_last() =~= ts.take(i as int));
            assert(ts.take(i + 1).last() == *t);
        }
        if is_known(&erc20.balance_changes, &t.contract) {
            if is_known(&erc20.balance_changes, &t.from) {
                put_pair(&mut out, &t.contract, &t.from);
            }
            if is_known(&erc20.balance_changes, &t.to) {
                put_pair(&mut out, &t.contract, &t.to);
            }
        } else {
            put_pair(&mut out, &t.contract, &t.from);
            put_pair(&mut out, &t.contract, &t.to);
        }
        i += 1;
    }
    assert(ts.take(ts.len() as int) =~= ts);
    out
}

/// The largest index and ordinal of the events (zero when there are none).
pub open spec fn max_index(bcs: Seq<IndexedBalanceChange>, ts: Seq<IndexedTransfer>) -> u64
    decreases bcs.len() + ts.len(),
{
    if ts.len() > 0 {
        let m = max_index(bcs, ts.drop_last());
        if ts.last().index > m { ts.last().index } else { m }
    } else if bcs.len() > 0 {
        let m = max_index(bcs.drop_last(), ts);
        if bcs.last().index > m { bcs.last().index } else { m }
    } else {
        0
    }
}

/// The largest ordinal of the events (zero when there are none).
pub open spec fn max_ordinal(bcs: Seq<IndexedBalanceChange>, ts: Seq<IndexedTransfer>) -> u64
    decreases bcs.len() + ts.len(),
{
    if ts.len() > 0 {
        let m = max_ordinal(bcs, ts.drop_last());
        if ts.last().ordinal > m { ts.last().ordinal } else { m }
    } else if bcs.len() > 0 {
        let m = max_ordinal(bcs.drop_last(), ts);
        if bcs.last().ordinal > m { bcs.last().ordinal } else { m }
    } else {
        0
    }
}

/// The highest index and ordinal of the ERC-20 events, from which the balances read by
/// RPC continue.
pub fn highest_index_ordinal(erc20: &IndexedEvents) -> (r: (u64, u64))
    ensures
        r.0 == max_index(erc20.balance_changes@, erc20.transfers@),
        r.1 == max_ordinal(erc20.balance_changes@, erc20.transfers@),
{
    let ghost bcs = erc20.balance_changes@;
    let ghost ts = erc20.transfers@;
    let mut index: u64 = 0;
    let mut ordinal: u64 = 0;
    let mut i: usize = 0;
    while i < erc20.balance_changes.len()
        invariant
            bcs == erc20.balance_changes@,
            i <= bcs.len(),
            index == max_index(bcs.take(i as int), Seq::empty()),
            ordinal == max_ordinal(bcs.take(i as int), Seq::empty()),
        decreases bcs.len() - i,
    {
        proof {
            assert(bcs.take(i + 1).drop_last() =~= bcs.take(i as int));
        }
        let b = &erc20.balance_changes[i];
        if b.index > index {
            index = b.index;
        }
        if b.ordinal > ordinal {
            ordinal = b.ordinal;
        }
        i += 1;
    }
    assert(bcs.take(bcs.len() as int) =~= bcs);
    assert(ts.take(0) =~= Seq::<IndexedTransfer>::empty());
    let mut j: usize = 0;
    while j < erc20.transfers.len()
        invariant
            bcs == erc20.balance_changes@,
            ts == erc20.transfers@,
            j <= ts.len(),
            index == max_index(bcs, ts.take(j as int)),
            ordinal == max_ordinal(bcs, ts.take(j as int)),
        decreases ts.len() - j,
    {
        proof {
            assert(ts.take(j + 1).drop_last() =~= ts.take(j as int));
        }
        let t = &erc20.transfers[j];
        if t.index > index {
            index = t.index;
        }
        if t.ordinal > ordinal {
            ordinal = t.ordinal;
        }
        j += 1;
    }
    assert(ts.take(ts.len() as int) =~= ts);
    (index, ordinal)
}

/// A balance to read by RPC: contract, holder, and the index and ordinal it gets.
pub type BalanceRequest = (Vec<u8>, Vec<u8>, u64, u64);

/// The pairs whose holder is not the null address, in order.
pub open spec fn non_null(d: Seq<(Seq<u8>, Seq<u8>)>) -> Seq<(Seq<u8>, Seq<u8>)>
    decreases d.len(),
{
    if d.len() == 0 {
        Seq::empty()
    } else if d.last().1 == null_address() {
        non_null(d.drop_last())
    } else {
        non_null(d.drop_last()).push(d.last())
    }
}

/// Whether the bytes are the null address.
fn is_null_address(v: &Vec<u8>) -> (r: bool)
    ensures
        r == (v@ == null_address()),
{
    if v.len() != 20 {
        return false;
    }
    let mut i: usize = 0;
    while i < 20
        invariant
            v.len() == 20,
            i <= 20,
            forall|k: int| 0 <= k < i ==> v@[k] == 0,
        decreases 20 - i,
    {
        if v[i] != 0 {
            return false;
        }
        i += 1;
    }
    assert(v@ =~= null_address());
    true
}

/// The balances to read by RPC: each pair whose holder is not the null address, in order,
/// numbered from one past the highest index and ordinal of the events.
pub fn balance_requests(pairs: &Vec<(Vec<u8>, Vec<u8>)>, index: u64, ordinal: u64) -> (r: Vec<BalanceRequest>)
    requires
        index + pairs.len() <= u64::MAX,
        ordinal + pairs.len() <= u64::MAX,
    ensures
        r.len() == non_null(pairs_view(pairs@)).len(),
        forall|k: int| 0 <= k < r.len() ==> {
            &&& (#[trigger] r@[k]).0@ == non_null(pairs_view(pairs@))[k].0
            &&& r@[k].1@ == non_null(pairs_view(pairs@))[k].1
            &&& r@[k].2 == index + k + 1
            &&& r@[k].3 == ordinal + k + 1
        },
{
    let ghost pv = pairs_view(pairs@);
    let mut out: Vec<BalanceRequest> = Vec::new();
    let mut idx = index;
    let mut ord = ordinal;
    let mut i: usize = 0;
    while i < pairs.len()
        invariant
            pv == pairs_view(pairs@),
            index + pairs.len() <= u64::MAX,
            ordinal + pairs.len() <= u64::MAX,
            i <= pairs.len(),
            out.len() == non_null(pv.take(i as int)).len(),
            out.len() <= i,
            idx == index + out.len(),
            ord == ordinal + out.len(),
            forall|k: int| 0 <= k < out.len() ==> {
                &&& (#[trigger] out@[k]).0@ == non_null(pv.take(i as int))[k].0
                &&& out@[k].1@ == non_null(pv.take(i as int))[k].1
                &&& out@[k].2 == index + k + 1
                &&& out@[k].3 == ordinal + k + 1
            },
        decreases pairs.len() - i,
    {
        proof {
            assert(pv.take(i + 1).drop_last() =~= pv.take(i as int));
            assert(pv.take(i + 1).last() == pv[i as int]);
            assert(pv[i as int] == (pairs@[i as int].0@, pairs@[i as int].1@));
        }
        let p = &pairs[i];
        if !is_null_address(&p.1) {
            idx = idx + 1;
            ord = ord + 1;
            out.push((copy_bytes(&p.0), copy_bytes(&p.1), idx, ord));
        }
        i += 1;
    }
    assert(pv.take(pairs.len() as int) =~= pv);
    out
}

/// A balance change read by RPC.
#[derive(Clone, Debug)]
pub struct RpcBalanceChange {
    pub transaction_id: Vec<u8>,
    pub contract: Vec<u8>,
    pub owner: Vec<u8>,
    pub old_balance: String,
    pub new_balance: String,
    pub ordinal: u64,
    pub index: u64,
    pub global_sequence: u64,
    pub algorithm: Algorithm,
}

/// The balance change of a request once its RPC call answered: no transaction and no old
/// balance (a call cannot tell it), the balance read or empty text when the call failed.
pub fn rpc_balance_change(request: BalanceRequest, balance: Option<BigNum>, global_sequence: u64) -> (r: RpcBalanceChange)
    ensures
        r.transaction_id@.len() == 0,
        r.contract@ == request.0@,
        r.owner@ == request.1@,
        r.old_balance@.len() == 0,
        r.new_balance@ == match balance {
            Some(b) => int_text(b@),
            None => Seq::empty(),
        },
        r.index == request.2,
        r.ordinal == request.3,
        r.global_sequence == global_sequence,
        r.algorithm == Algorithm::Rpc,
{
    let new_balance = match &balance {
        Some(b) => to_decimal_string(b),
        None => String::new(),
    };
    RpcBalanceChange {
        transaction_id: Vec::new(),
        contract: request.0,
        owner: request.1,
        old_balance: String::new(),
        new_balance,
        ordinal: request.3,
        index: request.2,
        global_sequence,
        algorithm: Algorithm::Rpc,
    }
}

} // verus!
