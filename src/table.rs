//! Handle-indexed storage: a table from opaque integer handles to entries.
use vstd::prelude::*;

verus! {

pub open spec fn ids_unique<V>(e: Seq<(u64, V)>) -> bool {
    forall|i: int, j: int|
        0 <= i < e.len() && 0 <= j < e.len() && i != j ==> (#[trigger] e[i]).0 != (#[trigger] e[j]).0
}

pub open spec fn has_id<V>(e: Seq<(u64, V)>, k: u64) -> bool {
    exists|i: int| 0 <= i < e.len() && (#[trigger] e[i]).0 == k
}

/// The entry stored under each handle of a list of entries with distinct handles.
pub open spec fn table_map<V>(e: Seq<(u64, V)>) -> Map<u64, V> {
    Map::new(
        |k: u64| has_id(e, k),
        |k: u64|
            {
                let i = choose|i: int| 0 <= i < e.len() && (#[trigger] e[i]).0 == k;
                e[i].1
            },
    )
}

proof fn lemma_entry_at<V>(e: Seq<(u64, V)>, i: int)
    requires
        ids_unique(e),
        0 <= i < e.len(),
    ensures
        table_map(e).contains_key(e[i].0),
        table_map(e)[e[i].0] == e[i].1,
{
    let k = e[i].0;
    assert(has_id(e, k));
    let j = choose|j: int| 0 <= j < e.len() && (#[trigger] e[j]).0 == k;
    assert(e[j].0 == k);
}

/// Entries by handle; each handle holds at most one entry.
pub struct IdTable<V> {
    entries: Vec<(u64, V)>,
}

impl<V> IdTable<V> {
    pub closed spec fn wf(&self) -> bool {
        ids_unique(self.entries@)
    }

    pub closed spec fn view(&self) -> Map<u64, V> {
        table_map(self.entries@)
    }

    pub fn new() -> (r: IdTable<V>)
        ensures
            r.wf(),
            r@ == Map::<u64, V>::empty(),
    {
        let r = IdTable { entries: Vec::new() };
        assert(r@ =~= Map::<u64, V>::empty());
        r
    }

    fn find(&self, k: u64) -> (r: Option<usize>)
        requires
            self.wf(),
        ensures
            match r {
                Some(i) => i < self.entries@.len() && self.entries@[i as int].0 == k,
                None => !has_id(self.entries@, k),
            },
    {
        let mut i: usize = 0;
        while i < self.entries.len()
            invariant
                i <= self.entries@.len(),
                forall|j: int| 0 <= j < i ==> (#[trigger] self.entries@[j]).0 != k,
            decreases self.entries@.len() - i,
        {
            if self.entries[i].0 == k {
                return Some(i);
            }
            i += 1;
        }
        None
    }

    /// Whether handle `k` holds an entry.
    pub fn contains_key(&self, k: u64) -> (r: bool)
        requires
            self.wf(),
        ensures
            r == self@.contains_key(k),
    {
        self.find(k).is_some()
    }

    /// The entry of handle `k`.
    pub fn get(&self, k: u64) -> (r: Option<&V>)
        requires
            self.wf(),
        ensures
            match r {
                Some(v) => self@.contains_key(k) && self@[k] == *v,
                None => !self@.contains_key(k),
            },
    {
        match self.find(k) {
            Some(i) => {
                proof {
                    lemma_entry_at(self.entries@, i as int);
                }
                Some(&self.entries[i].1)
            },
            None => None,
        }
    }

    /// Stores `v` under handle `k`, replacing any entry it held.
    pub fn insert(&mut self, k: u64, v: V)
        requires
            old(self).wf(),
        ensures
            final(self).wf(),
            final(self)@ == old(self)@.insert(k, v),
    {
        let ghost e0 = self.entries@;
        match self.find(k) {
            Some(i) => {
                self.entries.set(i, (k, v));
                proof {
                    let e = self.entries@;
                    assert(e == e0.update(i as int, (k, v)));
                    assert forall|p: int, q: int|
                        0 <= p < e.len() && 0 <= q < e.len() && p != q implies (#[trigger] e[p]).0
                        != (#[trigger] e[q]).0 by {
                        if p != i && q != i {
                            assert(e[p] == e0[p] && e[q] == e0[q]);
                        } else if p == i {
                            assert(e[q] == e0[q]);
                        } else {
                            assert(e[p] == e0[p]);
                        }
                    }
                    assert forall|x: u64| #[trigger] self@.contains_key(x) <==> (table_map(
                        e0,
                    ).contains_key(x) || x == k) by {
                        if has_id(e, x) {
                            let j = choose|j: int| 0 <= j < e.len() && (#[trigger] e[j]).0 == x;
                            if j != i {
                                assert(e0[j].0 == x);
                            }
                        }
                        if has_id(e0, x) {
                            let j = choose|j: int| 0 <= j < e0.len() && (#[trigger] e0[j]).0 == x;
                            if j != i {
                                assert(e[j].0 == x);
                            } else {
                                assert(e[i as int].0 == x);
                            }
                        }
                        if x == k {
                            assert(e[i as int].0 == x);
                        }
                    }
                    assert forall|x: u64| #[trigger] self@.contains_key(x) implies self@[x]
                        == table_map(e0).insert(k, v)[x] by {
                        let j = choose|j: int| 0 <= j < e.len() && (#[trigger] e[j]).0 == x;
                        assert(e[j].0 == x);
                        lemma_entry_at(e, j);
                        if j != i {
                            assert(e[j] == e0[j]);
                            lemma_entry_at(e0, j);
                        }
                    }
                    assert(self@ =~= table_map(e0).insert(k, v));
                }
            },
            None => {
                self.entries.push((k, v));
                proof {
                    let e = self.entries@;
                    assert(e == e0.push((k, v)));
                    assert forall|p: int, q: int|
                        0 <= p < e.len() && 0 <= q < e.len() && p != q implies (#[trigger] e[p]).0
                        != (#[trigger] e[q]).0 by {
                        if p < e0.len() && q < e0.len() {
                            assert(e[p] == e0[p] && e[q] == e0[q]);
                        } else if p < e0.len() {
                            assert(e[p] == e0[p]);
                        } else {
                            assert(e[q] == e0[q]);
                        }
                    }
                    assert forall|x: u64| #[trigger] self@.contains_key(x) <==> (table_map(
                        e0,
                    ).contains_key(x) || x == k) by {
                        if has_id(e, x) {
                            let j = choose|j: int| 0 <= j < e.len() && (#[trigger] e[j]).0 == x;
                            if j < e0.len() {
                                assert(e0[j].0 == x);
                            }
                        }
                        if has_id(e0, x) {
                            let j = choose|j: int| 0 <= j < e0.len() && (#[trigger] e0[j]).0 == x;
                            assert(e[j].0 == x);
                        }
                        if x == k {
                            assert(e[e0.len() as int].0 == x);
                        }
                    }
                    assert forall|x: u64| #[trigger] self@.contains_key(x) implies self@[x]
                        == table_map(e0).insert(k, v)[x] by {
                        let j = choose|j: int| 0 <= j < e.len() && (#[trigger] e[j]).0 == x;
                        assert(e[j].0 == x);
                        lemma_entry_at(e, j);
                        if j < e0.len() {
                            assert(e[j] == e0[j]);
                            lemma_entry_at(e0, j);
                        }
                    }
                    assert(self@ =~= table_map(e0).insert(k, v));
                }
            },
        }
    }

    /// Takes the entry of handle `k` out of the table.
    pub fn remove(&mut self, k: u64) -> (r: Option<V>)
        requires
            old(self).wf(),
        ensures
            final(self).wf(),
            final(self)@ == old(self)@.remove(k),
            match r {
                Some(v) => old(self)@.contains_key(k) && old(self)@[k] == v,
                None => !old(self)@.contains_key(k),
            },
    {
        let ghost e0 = self.entries@;
        match self.find(k) {
            Some(i) => {
                proof {
                    lemma_entry_at(e0, i as int);
                }
                let (_, v) = self.entries.remove(i);
                proof {
                    let e = self.entries@;
                    assert(e == e0.remove(i as int));
                    assert forall|p: int, q: int|
                        0 <= p < e.len() && 0 <= q < e.len() && p != q implies (#[trigger] e[p]).0
                        != (#[trigger] e[q]).0 by {
                        let p0 = if p < i { p } else { p + 1 };
                        let q0 = if q < i { q } else { q + 1 };
                        assert(e[p] == e0[p0] && e[q] == e0[q0]);
                    }
                    assert forall|x: u64| #[trigger] self@.contains_key(x) <==> (table_map(
                        e0,
                    ).contains_key(x) && x != k) by {
                        if has_id(e, x) {
                            let j = choose|j: int| 0 <= j < e.len() && (#[trigger] e[j]).0 == x;
                            let j0 = if j < i { j } else { j + 1 };
                            assert(e0[j0].0 == x);
                        }
                        if has_id(e0, x) && x != k {
                            let j = choose|j: int| 0 <= j < e0.len() && (#[trigger] e0[j]).0 == x;
                            if j < i {
                                assert(e[j].0 == x);
                            } else {
                                assert(j != i);
                                assert(e[j - 1].0 == x);
                            }
                        }
                    }
                    assert forall|x: u64| #[trigger] self@.contains_key(x) implies self@[x]
                        == table_map(e0).remove(k)[x] by {
                        let j = choose|j: int| 0 <= j < e.len() && (#[trigger] e[j]).0 == x;
                        assert(e[j].0 == x);
                        lemma_entry_at(e, j);
                        let j0 = if j < i { j } else { j + 1 };
                        assert(e[j] == e0[j0]);
                        lemma_entry_at(e0, j0);
                    }
                    assert(self@ =~= table_map(e0).remove(k));
                }
                Some(v)
            },
            None => {
                proof {
                    assert(self@ =~= table_map(e0).remove(k));
                }
                None
            },
        }
    }

    /// Forgets every entry.
    pub fn clear(&mut self)
        ensures
            final(self).wf(),
            final(self)@ == Map::<u64, V>::empty(),
    {
        self.entries.clear();
        assert(self@ =~= Map::<u64, V>::empty());
    }
}

} // verus!
