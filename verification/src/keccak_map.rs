//! A map from storage keys (Keccak hashes) to the owner addresses whose balance slot
//! they name.
use crate::eth::copy_bytes;
use vstd::prelude::*;

verus! {

/// Contents of a list of byte-string pairs.
pub open spec fn pairs_view(v: Seq<(Vec<u8>, Vec<u8>)>) -> Seq<(Seq<u8>, Seq<u8>)> {
    v.map_values(|p: (Vec<u8>, Vec<u8>)| (p.0@, p.1@))
}

/// The map made by inserting the pairs in order.
pub open spec fn pairs_map(s: Seq<(Seq<u8>, Seq<u8>)>) -> Map<Seq<u8>, Seq<u8>>
    decreases s.len(),
{
    if s.len() == 0 {
        Map::empty()
    } else {
        pairs_map(s.drop_last()).insert(s.last().0, s.last().1)
    }
}

/// No key occurs twice.
pub open spec fn keys_distinct(s: Seq<(Seq<u8>, Seq<u8>)>) -> bool {
    forall|i: int, j: int| 0 <= i < j < s.len() ==> s[i].0 != s[j].0
}

proof fn lemma_pairs_map_absent(s: Seq<(Seq<u8>, Seq<u8>)>, k: Seq<u8>)
    requires
        forall|i: int| 0 <= i < s.len() ==> s[i].0 != k,
    ensures
        !pairs_map(s).contains_key(k),
    decreases s.len(),
{
    if s.len() > 0 {
        lemma_pairs_map_absent(s.drop_last(), k);
    }
}

proof fn lemma_pairs_map_lookup(s: Seq<(Seq<u8>, Seq<u8>)>, i: int)
    requires
        keys_distinct(s),
        0 <= i < s.len(),
    ensures
        pairs_map(s).contains_key(s[i].0),
        pairs_map(s)[s[i].0] == s[i].1,
    decreases s.len(),
{
    if i < s.len() - 1 {
        lemma_pairs_map_lookup(s.drop_last(), i);
    }
}

proof fn lemma_pairs_map_update(s: Seq<(Seq<u8>, Seq<u8>)>, i: int, v: Seq<u8>)
    requires
        keys_distinct(s),
        0 <= i < s.len(),
    ensures
        pairs_map(s.update(i, (s[i].0, v))) =~= pairs_map(s).insert(s[i].0, v),
    decreases s.len(),
{
    let t = s.update(i, (s[i].0, v));
    if i == s.len() - 1 {
        assert(t.drop_last() =~= s.drop_last());
        assert forall|j: int| 0 <= j < s.drop_last().len() implies s.drop_last()[j].0 != s[i].0 by {
            assert(s[j].0 != s[i].0);
        }
        lemma_pairs_map_absent(s.drop_last(), s[i].0);
    } else {
        assert(t.drop_last() =~= s.drop_last().update(i, (s[i].0, v)));
        lemma_pairs_map_update(s.drop_last(), i, v);
    }
}

/// Storage key to owner address, with no key twice.
#[derive(Debug)]
pub struct StorageKeyToAddressMap {
    entries: Vec<(Vec<u8>, Vec<u8>)>,
}

impl View for StorageKeyToAddressMap {
    type V = Map<Seq<u8>, Seq<u8>>;

    closed spec fn view(&self) -> Map<Seq<u8>, Seq<u8>> {
        pairs_map(pairs_view(self.entries@))
    }
}

/// Whether two byte strings are equal.
pub fn bytes_eq(a: &[u8], b: &[u8]) -> (r: bool)
    ensures
        r == (a@ == b@),
{
    if a.len() != b.len() {
        return false;
    }
    let mut i: usize = 0;
    while i < a.len()
        invariant
            a.len() == b.len(),
            i <= a.len(),
            forall|j: int| 0 <= j < i ==> a@[j] == b@[j],
        decreases a.len() - i,
    {
        if a[i] != b[i] {
            return false;
        }
        i += 1;
    }
    assert(a@ =~= b@);
    true
}

impl StorageKeyToAddressMap {
    /// The map's invariant: no key twice.
    pub closed spec fn wf(&self) -> bool {
        keys_distinct(pairs_view(self.entries@))
    }

    /// The empty map.
    pub fn new() -> (r: StorageKeyToAddressMap)
        ensures
            r.wf(),
            r@ == Map::<Seq<u8>, Seq<u8>>::empty(),
    {
        let r = StorageKeyToAddressMap { entries: Vec::new() };
        assert(pairs_view(r.entries@) =~= Seq::<(Seq<u8>, Seq<u8>)>::empty());
        r
    }

    /// Position of `key` among the entries.
    fn find(&self, key: &[u8]) -> (r: Option<usize>)
        requires
            self.wf(),
        ensures
            match r {
                Some(i) => i < self.entries.len() && self.entries@[i as int].0@ == key@,
                None => forall|i: int| 0 <= i < self.entries.len() ==> self.entries@[i].0@ != key@,
            },
    {
        let mut i: usize = 0;
        while i < self.entries.len()
            invariant
                i <= self.entries.len(),
                forall|j: int| 0 <= j < i ==> self.entries@[j].0@ != key@,
            decreases self.entries.len() - i,
        {
            if bytes_eq(self.entries[i].0.as_slice(), key) {
                return Some(i);
            }
            i += 1;
        }
        None
    }

    /// The address stored for `key`.
    pub fn get(&self, key: &[u8]) -> (r: Option<&Vec<u8>>)
        requires
            self.wf(),
        ensures
            r is Some <==> self@.contains_key(key@),
            r matches Some(v) ==> v@ == self@[key@],
    {
        let ghost s = pairs_view(self.entries@);
        match self.find(key) {
            Some(i) => {
                proof {
                    assert(s[i as int].0 == key@);
                    lemma_pairs_map_lookup(s, i as int);
                }
                Some(&self.entries[i].1)
            },
            None => {
                proof {
                    assert forall|j: int| 0 <= j < s.len() implies s[j].0 != key@ by {
                        assert(s[j].0 == self.entries@[j].0@);
                    }
                    lemma_pairs_map_absent(s, key@);
                }
                None
            },
        }
    }

    /// Stores `value` for `key`, replacing what was stored for it.
    pub fn insert(&mut self, key: Vec<u8>, value: Vec<u8>)
        requires
            old(self).wf(),
        ensures
            final(self).wf(),
            final(self)@ == old(self)@.insert(key@, value@),
    {
        let ghost s = pairs_view(self.entries@);
        match self.find(key.as_slice()) {
            Some(i) => {
                let ghost v = value@;
                self.entries.set(i, (key, value));
                proof {
                    assert(pairs_view(self.entries@) =~= s.update(i as int, (s[i as int].0, v)));
                    lemma_pairs_map_update(s, i as int, v);
                }
            },
            None => {
                let ghost k = key@;
                let ghost v = value@;
                self.entries.push((key, value));
                proof {
                    let t = pairs_view(self.entries@);
                    assert(t =~= s.push((k, v)));
                    assert(t.drop_last() =~= s);
                    assert forall|a: int, b: int| 0 <= a < b < t.len() implies t[a].0 != t[b].0 by {
                        if b == t.len() - 1 {
                            assert(s[a].0 == old(self).entries@[a].0@);
                        }
                    }
                }
            },
        }
    }

    /// Inserts every pair of `other`, as `HashMap::extend` does.
    pub fn extend(&mut self, other: StorageKeyToAddressMap)
        requires
            old(self).wf(),
            other.wf(),
        ensures
            final(self).wf(),
            final(self)@ == old(self)@.union_prefer_right(other@),
    {
        let ghost s = pairs_view(other.entries@);
        let mut i: usize = 0;
        while i < other.entries.len()
            invariant
                self.wf(),
                i <= other.entries.len(),
                s == pairs_view(other.entries@),
                self@ == old(self)@.union_prefer_right(pairs_map(s.subrange(0, i as int))),
            decreases other.entries.len() - i,
        {
            let k = copy_bytes(&other.entries[i].0);
            let v = copy_bytes(&other.entries[i].1);
            self.insert(k, v);
            proof {
                assert(s.subrange(0, i + 1).drop_last() =~= s.subrange(0, i as int));
                assert(self@ =~= old(self)@.union_prefer_right(pairs_map(s.subrange(0, i + 1))));
            }
            i += 1;
        }
        assert(s.subrange(0, other.entries.len() as int) =~= s);
    }
}

} // verus!
