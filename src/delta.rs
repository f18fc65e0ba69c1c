use vstd::prelude::*;

use crate::types::{DDValue, RelId};

verus! {

/// The key of a fact: its relation and its value.
pub type FactKey = (RelId, DDValue);

/// Weight of `k` in `m`, zero where `m` has no entry.
pub open spec fn weight_of(m: Map<FactKey, int>, k: FactKey) -> int {
    if m.contains_key(k) {
        m[k]
    } else {
        0
    }
}

/// `m` with the weight of `k` set to `w`, the entry dropped where `w` is zero.
pub open spec fn with_weight(m: Map<FactKey, int>, k: FactKey, w: int) -> Map<FactKey, int> {
    if w == 0 {
        m.remove(k)
    } else {
        m.insert(k, w)
    }
}

/// `m` after `diff` is added to the weight of `k`.
pub open spec fn add_weight(m: Map<FactKey, int>, k: FactKey, diff: int) -> Map<FactKey, int> {
    with_weight(m, k, weight_of(m, k) + diff)
}

/// A map holds no zero weight.
pub open spec fn no_zero_weights(m: Map<FactKey, int>) -> bool {
    forall|k: FactKey| #[trigger] m.contains_key(k) ==> m[k] != 0
}

/// The facts of relation `relid` among `es`, in order, with their weights.
pub open spec fn entries_of_rel(es: Seq<DeltaEntry>, relid: RelId) -> Seq<(DDValue, i64)>
    decreases es.len(),
{
    if es.len() == 0 {
        Seq::empty()
    } else {
        let prev = entries_of_rel(es.drop_last(), relid);
        if es.last().relid == relid {
            prev.push((es.last().value, es.last().weight))
        } else {
            prev
        }
    }
}

/// One entry of a `DeltaMap`.
#[derive(Clone, Copy, Debug)]
pub struct DeltaEntry {
    pub relid: RelId,
    pub value: DDValue,
    pub weight: i64,
}

pub open spec fn entry_key(e: DeltaEntry) -> FactKey {
    (e.relid, e.value)
}

/// A signed multiset of facts per relation: each (relation, value) pair
/// with its nonzero weight.  Used both for the change of one commit and for
/// the full materialized content of the relations.
pub struct DeltaMap {
    entries: Vec<DeltaEntry>,
    contents: Ghost<Map<FactKey, int>>,
}

impl View for DeltaMap {
    type V = Map<FactKey, int>;

    closed spec fn view(&self) -> Map<FactKey, int> {
        self.contents@
    }
}

impl DeltaMap {
    /// The facts of relation `relid`, in storage order.
    pub closed spec fn rel_entries(&self, relid: RelId) -> Seq<(DDValue, i64)> {
        entries_of_rel(self.entries@, relid)
    }

    pub closed spec fn wf(&self) -> bool {
        &&& forall|i: int, j: int|
            0 <= i < j < self.entries@.len() ==> entry_key(#[trigger] self.entries@[i])
                != entry_key(#[trigger] self.entries@[j])
        &&& forall|i: int|
            0 <= i < self.entries@.len() ==> {
                let e = #[trigger] self.entries@[i];
                &&& self.contents@.contains_key(entry_key(e))
                &&& self.contents@[entry_key(e)] == e.weight as int
            }
        &&& forall|k: FactKey| #[trigger]
            self.contents@.contains_key(k) ==> exists|i: int|
                0 <= i < self.entries@.len() && entry_key(#[trigger] self.entries@[i]) == k
        &&& no_zero_weights(self.contents@)
    }

    /// A well-formed map holds no fact with weight zero.
    pub proof fn lemma_no_zero_weights(&self)
        requires
            self.wf(),
        ensures
            no_zero_weights(self@),
    {
    }

    pub fn new() -> (r: DeltaMap)
        ensures
            r.wf(),
            r@ == Map::<FactKey, int>::empty(),
    {
        DeltaMap { entries: Vec::new(), contents: Ghost(Map::empty()) }
    }

    /// Number of facts held.
    pub fn len(&self) -> (r: usize)
        requires
            self.wf(),
        ensures
            r as int == self@.dom().len(),
    {
        proof { self.lemma_dom_len(); }
        self.entries.len()
    }

    proof fn lemma_dom_len(&self)
        requires
            self.wf(),
        ensures
            self@.dom().finite(),
            self@.dom().len() == self.entries@.len(),
    {
        let keys = self.entries@.map_values(|e: DeltaEntry| entry_key(e));
        assert forall|i: int, j: int| 0 <= i < j < keys.len() implies keys[i] != keys[j] by {
            assert(entry_key(self.entries@[i]) != entry_key(self.entries@[j]));
        }
        assert(keys.no_duplicates());
        assert forall|k: FactKey| self@.dom().contains(k) <==> keys.to_set().contains(k) by {
            if self@.dom().contains(k) {
                let i = choose|i: int|
                    0 <= i < self.entries@.len() && entry_key(#[trigger] self.entries@[i]) == k;
                assert(keys[i] == k);
            }
            if keys.to_set().contains(k) {
                let i = choose|i: int| 0 <= i < keys.len() && keys[i] == k;
                assert(entry_key(self.entries@[i]) == k);
            }
        }
        assert(self@.dom() =~= keys.to_set());
        keys.unique_seq_to_set();
    }

    /// Position of the entry for `k`, if the map holds one.
    fn find(&self, relid: RelId, value: &DDValue) -> (r: Option<usize>)
        requires
            self.wf(),
        ensures
            match r {
                Some(i) => i < self.entries@.len() && entry_key(self.entries@[i as int]) == (
                relid,
                *value,
                ),
                None => !self@.contains_key((relid, *value)),
            },
    {
        let mut i: usize = 0;
        while i < self.entries.len()
            invariant
                self.wf(),
                i <= self.entries@.len(),
                forall|j: int| 0 <= j < i ==> entry_key(#[trigger] self.entries@[j]) != (relid, *value),
            decreases self.entries@.len() - i,
        {
            let e = &self.entries[i];
            if e.relid == relid && e.value == *value {
                return Some(i);
            }
            i = i + 1;
        }
        None
    }

    /// Weight of the fact `(relid, value)`, zero where the map does not hold it.
    pub fn get(&self, relid: RelId, value: &DDValue) -> (r: i64)
        requires
            self.wf(),
        ensures
            r as int == weight_of(self@, (relid, *value)),
    {
        match self.find(relid, value) {
            Some(i) => self.entries[i].weight,
            None => 0,
        }
    }

    /// Adds `diff` to the weight of `(relid, value)`; an entry whose weight
    /// becomes zero is removed.
    pub fn update(&mut self, relid: RelId, value: &DDValue, diff: i64)
        requires
            old(self).wf(),
            i64::MIN <= weight_of(old(self)@, (relid, *value)) + diff <= i64::MAX,
        ensures
            final(self).wf(),
            final(self)@ == add_weight(old(self)@, (relid, *value), diff as int),
    {
        let k: Ghost<FactKey> = Ghost((relid, *value));
        match self.find(relid, value) {
            Some(i) => {
                let w = self.entries[i].weight + diff;
                if w == 0 {
                    let ghost before = self.entries@;
                    self.entries.remove(i);
                    self.contents = Ghost(self.contents@.remove(k@));
                    assert forall|j: int| 0 <= j < self.entries@.len() implies {
                        let e = #[trigger] self.entries@[j];
                        &&& self.contents@.contains_key(entry_key(e))
                        &&& self.contents@[entry_key(e)] == e.weight as int
                    } by {
                        if j < i {
                            assert(self.entries@[j] == before[j]);
                        } else {
                            assert(self.entries@[j] == before[j + 1]);
                        }
                    }
                    assert forall|k2: FactKey| #[trigger]
                        self.contents@.contains_key(k2) implies exists|j: int|
                        0 <= j < self.entries@.len() && entry_key(#[trigger] self.entries@[j])
                            == k2 by {
                        let j = choose|j: int|
                            0 <= j < before.len() && entry_key(#[trigger] before[j]) == k2;
                        if j < i {
                            assert(entry_key(self.entries@[j]) == k2);
                        } else {
                            assert(entry_key(self.entries@[j - 1]) == k2);
                        }
                    }
                    assert forall|a: int, b: int|
                        0 <= a < b < self.entries@.len() implies entry_key(
                        #[trigger] self.entries@[a],
                    ) != entry_key(#[trigger] self.entries@[b]) by {
                        let a2 = if a < i { a } else { a + 1 };
                        let b2 = if b < i { b } else { b + 1 };
                        assert(self.entries@[a] == before[a2]);
                        assert(self.entries@[b] == before[b2]);
                    }
                } else {
                    let ghost before = self.entries@;
                    let e = DeltaEntry { relid, value: *value, weight: w };
                    self.entries.set(i, e);
                    self.contents = Ghost(self.contents@.insert(k@, w as int));
                    assert forall|j: int| 0 <= j < self.entries@.len() implies {
                        let e = #[trigger] self.entries@[j];
                        &&& self.contents@.contains_key(entry_key(e))
                        &&& self.contents@[entry_key(e)] == e.weight as int
                    } by {
                        if j != i {
                            assert(self.entries@[j] == before[j]);
                            assert(entry_key(before[j]) != entry_key(before[i as int]));
                        }
                    }
                    assert forall|k2: FactKey| #[trigger]
                        self.contents@.contains_key(k2) implies exists|j: int|
                        0 <= j < self.entries@.len() && entry_key(#[trigger] self.entries@[j])
                            == k2 by {
                        if k2 == k@ {
                            assert(entry_key(self.entries@[i as int]) == k2);
                        } else {
                            let j = choose|j: int|
                                0 <= j < before.len() && entry_key(#[trigger] before[j]) == k2;
                            assert(entry_key(self.entries@[j]) == k2);
                        }
                    }
                    assert forall|a: int, b: int|
                        0 <= a < b < self.entries@.len() implies entry_key(
                        #[trigger] self.entries@[a],
                    ) != entry_key(#[trigger] self.entries@[b]) by {
                        assert(entry_key(before[a]) != entry_key(before[b]));
                    }
                }
            },
            None => {
                if diff != 0 {
                    let ghost before = self.entries@;
                    self.entries.push(DeltaEntry { relid, value: *value, weight: diff });
                    self.contents = Ghost(self.contents@.insert(k@, diff as int));
                    assert forall|j: int| 0 <= j < self.entries@.len() implies {
                        let e = #[trigger] self.entries@[j];
                        &&& self.contents@.contains_key(entry_key(e))
                        &&& self.contents@[entry_key(e)] == e.weight as int
                    } by {
                        if j < before.len() {
                            assert(self.entries@[j] == before[j]);
                        }
                    }
                    assert forall|k2: FactKey| #[trigger]
                        self.contents@.contains_key(k2) implies exists|j: int|
                        0 <= j < self.entries@.len() && entry_key(#[trigger] self.entries@[j])
                            == k2 by {
                        if k2 == k@ {
                            assert(entry_key(self.entries@[before.len() as int]) == k2);
                        } else {
                            let j = choose|j: int|
                                0 <= j < before.len() && entry_key(#[trigger] before[j]) == k2;
                            assert(entry_key(self.entries@[j]) == k2);
                        }
                    }
                    assert forall|a: int, b: int|
                        0 <= a < b < self.entries@.len() implies entry_key(
                        #[trigger] self.entries@[a],
                    ) != entry_key(#[trigger] self.entries@[b]) by {
                        if b == before.len() {
                            assert(self.entries@[a] == before[a]);
                            assert(entry_key(before[a]) != k@);
                        } else {
                            assert(self.entries@[a] == before[a]);
                            assert(self.entries@[b] == before[b]);
                        }
                    }
                }
                assert(self@ =~= add_weight(old(self)@, k@, diff as int));
            },
        }
    }
    /// The facts of relation `relid` with their weights, in storage order.
    pub fn get_rel(&self, relid: RelId) -> (r: Vec<(DDValue, i64)>)
        requires
            self.wf(),
        ensures
            forall|i: int|
                0 <= i < r@.len() ==> #[trigger] self@.contains_key((relid, r@[i].0))
                    && self@[(relid, r@[i].0)] == r@[i].1 as int,
            forall|i: int, j: int| 0 <= i < j < r@.len() ==> r@[i].0 != r@[j].0,
            forall|v: DDValue| #[trigger]
                self@.contains_key((relid, v)) ==> exists|i: int| 0 <= i < r@.len() && r@[i].0 == v,
            r@ == self.rel_entries(relid),
    {
        let mut r: Vec<(DDValue, i64)> = Vec::new();
        let ghost mut pos: Seq<int> = Seq::empty();
        let mut i: usize = 0;
        while i < self.entries.len()
            invariant
                self.wf(),
                i <= self.entries@.len(),
                pos.len() == r@.len(),
                r@ == entries_of_rel(self.entries@.take(i as int), relid),
                forall|j: int|
                    0 <= j < r@.len() ==> #[trigger] self@.contains_key((relid, r@[j].0))
                        && self@[(relid, r@[j].0)] == r@[j].1 as int,
                forall|a: int, b: int| 0 <= a < b < r@.len() ==> r@[a].0 != r@[b].0,
                forall|j: int|
                    0 <= j < r@.len() ==> 0 <= #[trigger] pos[j] < i && entry_key(self.entries@[pos[j]])
                        == (relid, r@[j].0),
                forall|n: int|
                    0 <= n < i && (#[trigger] self.entries@[n]).relid == relid ==> exists|j: int|
                        0 <= j < r@.len() && r@[j].0 == self.entries@[n].value,
            decreases self.entries@.len() - i,
        {
            let e = self.entries[i];
            proof {
                assert(self.entries@.take(i + 1).drop_last() =~= self.entries@.take(i as int));
                assert(self.entries@.take(i + 1).last() == e);
            }
            if e.relid == relid {
                proof {
                    assert forall|j: int| 0 <= j < r@.len() implies r@[j].0 != e.value by {
                        assert(entry_key(self.entries@[pos[j]]) != entry_key(self.entries@[i as int]));
                    }
                }
                let ghost old_r = r@;
                r.push((e.value, e.weight));
                proof {
                    pos = pos.push(i as int);
                    assert(forall|j: int| 0 <= j < old_r.len() ==> r@[j] == old_r[j]);
                    assert forall|n: int|
                        0 <= n < i + 1 && (#[trigger] self.entries@[n]).relid == relid implies exists|j: int|
                            0 <= j < r@.len() && r@[j].0 == self.entries@[n].value by {
                        if n == i {
                            assert(r@[r@.len() - 1].0 == self.entries@[n].value);
                        } else {
                            let j = choose|j: int| 0 <= j < old_r.len() && old_r[j].0 == self.entries@[n].value;
                            assert(r@[j] == old_r[j]);
                        }
                    }
                }
            }
            i = i + 1;
        }
        proof {
            assert(self.entries@.take(i as int) =~= self.entries@);
            assert forall|v: DDValue| #[trigger]
                self@.contains_key((relid, v)) implies exists|j: int| 0 <= j < r@.len() && r@[j].0 == v by {
                let n = choose|n: int|
                    0 <= n < self.entries@.len() && entry_key(#[trigger] self.entries@[n]) == (relid, v);
                assert(self.entries@[n].relid == relid);
            }
        }
        r
    }
}

} // verus!
