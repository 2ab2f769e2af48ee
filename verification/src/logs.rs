//! The logs of a transaction with the calls that emitted them, in the order of their
//! ordinals, leaving out the calls whose state was reverted.
use crate::eth::{calls_view, Call, CallView, Log, LogView, TransactionTrace, TransactionTraceView};
use vstd::prelude::*;

verus! {

/// A log and the call that emitted it.
pub type CallLog = (Call, Log);

/// Contents of a log and its call.
pub type CallLogView = (CallView, LogView);

/// Contents of a list of logs with their calls.
pub open spec fn call_logs_view(v: Seq<CallLog>) -> Seq<CallLogView> {
    v.map_values(|p: CallLog| (p.0@, p.1@))
}

/// The logs of the calls whose state was not reverted, call after call, each with its
/// call.
pub open spec fn call_logs_of(calls: Seq<CallView>) -> Seq<CallLogView>
    decreases calls.len(),
{
    if calls.len() == 0 {
        Seq::empty()
    } else {
        let c = calls.last();
        call_logs_of(calls.drop_last()) + if c.state_reverted {
            Seq::empty()
        } else {
            c.logs.map_values(|l: LogView| (c, l))
        }
    }
}

/// Where a log with the given ordinal goes in a list: after the last entry whose ordinal
/// is not greater.
pub open spec fn insert_position(s: Seq<CallLogView>, ordinal: u64) -> int
    decreases s.len(),
{
    if s.len() == 0 {
        0
    } else if s.last().1.ordinal <= ordinal {
        s.len() as int
    } else {
        insert_position(s.drop_last(), ordinal)
    }
}

/// The list sorted by log ordinal, entries with the same ordinal kept in their order.
pub open spec fn sort_by_ordinal(s: Seq<CallLogView>) -> Seq<CallLogView>
    decreases s.len(),
{
    if s.len() == 0 {
        Seq::empty()
    } else {
        let d = sort_by_ordinal(s.drop_last());
        d.insert(insert_position(d, s.last().1.ordinal), s.last())
    }
}

/// The logs of a transaction with their calls, sorted by ordinal; logs of calls whose
/// state was reverted are left out.
pub open spec fn logs_with_calls(trx: TransactionTraceView) -> Seq<CallLogView> {
    sort_by_ordinal(call_logs_of(trx.calls))
}

proof fn lemma_insert_position(s: Seq<CallLogView>, ordinal: u64)
    ensures
        0 <= insert_position(s, ordinal) <= s.len(),
        forall|k: int| insert_position(s, ordinal) <= k < s.len() ==> (#[trigger] s[k]).1.ordinal > ordinal,
        insert_position(s, ordinal) > 0 ==> s[insert_position(s, ordinal) - 1].1.ordinal <= ordinal,
    decreases s.len(),
{
    if s.len() > 0 && s.last().1.ordinal > ordinal {
        lemma_insert_position(s.drop_last(), ordinal);
        assert forall|k: int| insert_position(s, ordinal) <= k < s.len() implies (#[trigger] s[k]).1.ordinal > ordinal by {
            if k < s.len() - 1 {
                assert(s[k] == s.drop_last()[k]);
            }
        }
    }
}

/// Whether the ordinals of the list never decrease.
pub open spec fn ordinals_sorted(s: Seq<CallLogView>) -> bool {
    forall|a: int, b: int| 0 <= a < b < s.len() ==> (#[trigger] s[a]).1.ordinal <= (#[trigger] s[b]).1.ordinal
}

/// Sorting by ordinal gives a list whose ordinals never decrease, with as many entries as
/// the list sorted.
pub proof fn lemma_sort_by_ordinal(s: Seq<CallLogView>)
    ensures
        ordinals_sorted(sort_by_ordinal(s)),
        sort_by_ordinal(s).len() == s.len(),
    decreases s.len(),
{
    if s.len() > 0 {
        let d = sort_by_ordinal(s.drop_last());
        let x = s.last();
        lemma_sort_by_ordinal(s.drop_last());
        lemma_insert_position(d, x.1.ordinal);
        let p = insert_position(d, x.1.ordinal);
        let r = d.insert(p, x);
        assert forall|a: int, b: int| 0 <= a < b < r.len() implies (#[trigger] r[a]).1.ordinal <= (#[trigger] r[b]).1.ordinal by {
            if a < p && b < p {
                assert(r[a] == d[a] && r[b] == d[b]);
            } else if a < p && b == p {
                assert(r[a] == d[a]);
                assert(d[a].1.ordinal <= d[p - 1].1.ordinal);
            } else if a < p {
                assert(r[a] == d[a] && r[b] == d[b - 1]);
            } else if a == p {
                assert(r[b] == d[b - 1]);
            } else {
                assert(r[a] == d[a - 1] && r[b] == d[b - 1]);
            }
        }
    }
}

/// Appends the logs of the calls whose state was not reverted, call after call.
fn collect_call_logs(calls: &Vec<Call>) -> (r: Vec<CallLog>)
    ensures
        call_logs_view(r@) == call_logs_of(calls_view(calls@)),
{
    let ghost cv = calls_view(calls@);
    let mut out: Vec<CallLog> = Vec::new();
    let mut j: usize = 0;
    while j < calls.len()
        invariant
            cv == calls_view(calls@),
            j <= calls.len(),
            call_logs_view(out@) == call_logs_of(cv.take(j as int)),
        decreases calls.len() - j,
    {
        let call = &calls[j];
        proof {
            assert(cv.take(j + 1).drop_last() =~= cv.take(j as int));
            assert(cv[j as int] == call@);
        }
        if !call.state_reverted {
            let ghost before = call_logs_view(out@);
            let ghost lv = call@.logs.map_values(|l: LogView| (call@, l));
            let mut k: usize = 0;
            while k < call.logs.len()
                invariant
                    k <= call.logs.len(),
                    lv == call@.logs.map_values(|l: LogView| (call@, l)),
                    call_logs_view(out@) == before + lv.take(k as int),
                decreases call.logs.len() - k,
            {
                let ghost prev = call_logs_view(out@);
                out.push((call.duplicate(), call.logs[k].duplicate()));
                proof {
                    assert(call@.logs[k as int] == call.logs@[k as int]@);
                    assert(call_logs_view(out@) =~= prev.push(lv[k as int]));
                    assert(lv.take(k + 1) =~= lv.take(k as int).push(lv[k as int]));
                }
                k += 1;
            }
            assert(lv.take(call.logs.len() as int) =~= lv);
        }
        j += 1;
    }
    assert(cv.take(calls.len() as int) =~= cv);
    out
}

/// The logs of a transaction with the calls that emitted them, sorted by ordinal (logs
/// with the same ordinal keep their order); calls whose state was reverted are left out.
pub fn get_logs_with_calls(trx: &TransactionTrace) -> (r: Vec<CallLog>)
    ensures
        call_logs_view(r@) == logs_with_calls(trx@),
{
    let pairs = collect_call_logs(&trx.calls);
    let ghost pv = call_logs_view(pairs@);
    let mut out: Vec<CallLog> = Vec::new();
    let mut i: usize = 0;
    while i < pairs.len()
        invariant
            pv == call_logs_view(pairs@),
            i <= pairs.len(),
            call_logs_view(out@) == sort_by_ordinal(pv.take(i as int)),
        decreases pairs.len() - i,
    {
        let ghost d = call_logs_view(out@);
        let ordinal = pairs[i].1.ordinal;
        proof {
            assert(pv[i as int] == (pairs@[i as int].0@, pairs@[i as int].1@));
            assert(pv.take(i + 1).drop_last() =~= pv.take(i as int));
            assert(d.take(out.len() as int) =~= d);
        }
        let mut j: usize = out.len();
        while j > 0 && out[j - 1].1.ordinal > ordinal
            invariant
                d == call_logs_view(out@),
                j <= out.len(),
                insert_position(d, ordinal) == insert_position(d.take(j as int), ordinal),
            decreases j,
        {
            proof {
                assert(d[j - 1] == (out@[j - 1].0@, out@[j - 1].1@));
                assert(d.take(j as int).drop_last() =~= d.take(j - 1));
            }
            j -= 1;
        }
        proof {
            if j > 0 {
                assert(d[j - 1] == (out@[j - 1].0@, out@[j - 1].1@));
                assert(d.take(j as int).last() == d[j - 1]);
            }
        }
        let ghost x = pv[i as int];
        out.insert(j, (pairs[i].0.duplicate(), pairs[i].1.duplicate()));
        assert(call_logs_view(out@) =~= d.insert(j as int, x));
        i += 1;
    }
    assert(pv.take(pairs.len() as int) =~= pv);
    out
}

} // verus!
