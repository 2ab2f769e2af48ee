//! Lists of byte strings without repetition, in order of first occurrence.
use crate::eth::{bytes_list_view, copy_bytes};
use crate::keccak_map::bytes_eq;
use vstd::prelude::*;

verus! {

/// The values of `s` without repetition, each at its first occurrence.
pub open spec fn distinct_of(s: Seq<Seq<u8>>) -> Seq<Seq<u8>>
    decreases s.len(),
{
    if s.len() == 0 {
        Seq::empty()
    } else {
        let d = distinct_of(s.drop_last());
        if d.contains(s.last()) {
            d
        } else {
            d.push(s.last())
        }
    }
}

/// The values of a list without repetition: no value occurs twice, and a value occurs in
/// the result exactly when it occurs in the list.
pub proof fn lemma_distinct_of(s: Seq<Seq<u8>>)
    ensures
        distinct_of(s).no_duplicates(),
        forall|x: Seq<u8>| distinct_of(s).contains(x) <==> s.contains(x),
    decreases s.len(),
{
    if s.len() > 0 {
        let p = s.drop_last();
        lemma_distinct_of(p);
        let d = distinct_of(p);
        let r = distinct_of(s);
        let l = s.last();
        assert(r == if d.contains(l) { d } else { d.push(l) });
        assert forall|x: Seq<u8>| r.contains(x) <==> s.contains(x) by {
            if s.contains(x) {
                let j = choose|j: int| 0 <= j < s.len() && s[j] == x;
                if j < s.len() - 1 {
                    assert(p[j] == x);
                    assert(p.contains(x));
                    assert(d.contains(x));
                    let k = choose|k: int| 0 <= k < d.len() && d[k] == x;
                    assert(r[k] == x);
                } else if d.contains(l) {
                    assert(r.contains(x));
                } else {
                    assert(r[d.len() as int] == x);
                }
            }
            if r.contains(x) {
                let k = choose|k: int| 0 <= k < r.len() && r[k] == x;
                if k < d.len() {
                    assert(d[k] == x);
                    assert(d.contains(x));
                    assert(p.contains(x));
                    let j = choose|j: int| 0 <= j < p.len() && p[j] == x;
                    assert(s[j] == x);
                } else {
                    assert(s[s.len() - 1] == x);
                }
            }
        }
        if !d.contains(s.last()) {
            let r = d.push(s.last());
            assert forall|a: int, b: int| 0 <= a < b < r.len() implies r[a] != r[b] by {
                if b == r.len() - 1 {
                    assert(d[a] == r[a]);
                }
            }
        }
    }
}

/// The values of `v` without repetition, in order of first occurrence.
pub fn distinct_bytes(v: &Vec<Vec<u8>>) -> (r: Vec<Vec<u8>>)
    ensures
        bytes_list_view(r@) == distinct_of(bytes_list_view(v@)),
{
    let ghost s = bytes_list_view(v@);
    let mut out: Vec<Vec<u8>> = Vec::new();
    let mut i: usize = 0;
    while i < v.len()
        invariant
            s == bytes_list_view(v@),
            i <= v.len(),
            bytes_list_view(out@) == distinct_of(s.subrange(0, i as int)),
        decreases v.len() - i,
    {
        proof {
            assert(s.subrange(0, i + 1).drop_last() =~= s.subrange(0, i as int));
            assert(s[i as int] == v@[i as int]@);
        }
        let ghost d = bytes_list_view(out@);
        let mut found = false;
        let mut j: usize = 0;
        while j < out.len()
            invariant
                d == bytes_list_view(out@),
                i < v.len(),
                j <= out.len(),
                found == exists|k: int| 0 <= k < j && d[k] == v@[i as int]@,
            decreases out.len() - j,
        {
            proof {
                assert(d[j as int] == out@[j as int]@);
            }
            if bytes_eq(out[j].as_slice(), v[i].as_slice()) {
                found = true;
            }
            j += 1;
        }
        proof {
            if d.contains(s[i as int]) {
                let k = choose|k: int| 0 <= k < d.len() && d[k] == s[i as int];
                assert(0 <= k < j && d[k] == v@[i as int]@);
            }
        }
        if !found {
            out.push(copy_bytes(&v[i]));
            assert(bytes_list_view(out@) =~= d.push(s[i as int]));
        }
        i += 1;
    }
    assert(s.subrange(0, v.len() as int) =~= s);
    out
}

} // verus!
