//! Allocation of native binding points and texture units to `(group, binding)` keys.
use vstd::prelude::*;

verus! {

/// A monotonically growing table from `(bind group index, binding index)` to a native slot.
/// The slot of the k-th distinct key requested is k; slots are never reclaimed.
pub struct SlotAllocator {
    keys: Vec<(u32, u32)>,
}

impl SlotAllocator {
    /// The keys in the order in which they were first requested; the slot of a key is its
    /// position here.
    pub closed spec fn keys(&self) -> Seq<(u32, u32)> {
        self.keys@
    }

    /// Each key appears once.
    pub closed spec fn wf(&self) -> bool {
        &&& self.keys@.no_duplicates()
        &&& self.keys@.len() <= u32::MAX
    }

    /// The slots assigned so far, as a map from key to slot.
    pub open spec fn slots(&self) -> Map<(u32, u32), u32> {
        Map::new(
            |k: (u32, u32)| self.keys().contains(k),
            |k: (u32, u32)| self.keys().index_of(k) as u32,
        )
    }

    /// The number of slots handed out, which is also the next slot to hand out.
    pub open spec fn next_slot(&self) -> nat {
        self.keys().len()
    }

    pub fn new() -> (r: SlotAllocator)
        ensures
            r.wf(),
            r.keys() == Seq::<(u32, u32)>::empty(),
    {
        SlotAllocator { keys: Vec::new() }
    }

    /// The number of slots handed out.
    pub fn len(&self) -> (r: usize)
        ensures
            r == self.next_slot(),
    {
        self.keys.len()
    }

    /// The slot of a key that has one.
    pub fn get(&self, group_index: u32, index: u32) -> (r: Option<u32>)
        requires
            self.wf(),
        ensures
            r == (if self.slots().contains_key((group_index, index)) {
                Some(self.slots()[(group_index, index)])
            } else {
                None
            }),
    {
        let mut i: usize = 0;
        while i < self.keys.len()
            invariant
                self.wf(),
                i <= self.keys@.len(),
                forall|j: int| 0 <= j < i ==> self.keys@[j] != (group_index, index),
            decreases self.keys@.len() - i,
        {
            let (g, b) = self.keys[i];
            if g == group_index && b == index {
                proof {
                    lemma_index_is_unique(self.keys@, (group_index, index), i as int);
                }
                return Some(i as u32);
            }
            i += 1;
        }
        None
    }

    /// Returns the slot of `(group_index, index)`, assigning the next free slot on the first
    /// request for that key.
    pub fn get_or_create(&mut self, group_index: u32, index: u32) -> (r: u32)
        requires
            old(self).wf(),
            old(self).slots().contains_key((group_index, index)) || old(self).next_slot()
                < u32::MAX,
        ensures
            final(self).wf(),
            old(self).slots().contains_key((group_index, index)) ==> {
                &&& r == old(self).slots()[(group_index, index)]
                &&& final(self).keys() == old(self).keys()
            },
            !old(self).slots().contains_key((group_index, index)) ==> {
                &&& r == old(self).next_slot()
                &&& final(self).keys() == old(self).keys().push((group_index, index))
            },
            final(self).slots() == old(self).slots().insert((group_index, index), r),
    {
        match self.get(group_index, index) {
            Some(slot) => {
                proof {
                    assert(self.slots().insert((group_index, index), slot) =~= self.slots());
                }
                slot
            },
            None => {
                let slot = self.keys.len() as u32;
                let ghost before = self.keys@;
                self.keys.push((group_index, index));
                proof {
                    assert(self.keys@ == before.push((group_index, index)));
                    assert(!before.contains((group_index, index)));
                    assert(self.keys@.no_duplicates()) by {
                        assert forall|a: int, b: int|
                            0 <= a < b < self.keys@.len() implies self.keys@[a]
                            != self.keys@[b] by {
                            if b == before.len() {
                                assert(before.contains(before[a]));
                            }
                        }
                    }
                    lemma_push_slots(before, (group_index, index));
                }
                slot
            },
        }
    }
}

/// Distinct keys hold distinct slots, and every slot handed out is below the number of slots
/// handed out; together with `get_or_create`, which returns a known key's slot unchanged and
/// gives a new key the next number, this makes allocation idempotent and injective.
pub proof fn lemma_slots_distinct(a: &SlotAllocator, k1: (u32, u32), k2: (u32, u32))
    requires
        a.wf(),
        a.slots().contains_key(k1),
        a.slots().contains_key(k2),
        k1 != k2,
    ensures
        a.slots()[k1] != a.slots()[k2],
        a.slots()[k1] < a.next_slot(),
{
    let s = a.keys@;
    let i = s.index_of(k1);
    let j = s.index_of(k2);
    assert(0 <= i < s.len() && s[i] == k1);
    assert(0 <= j < s.len() && s[j] == k2);
}

/// A request never takes a slot back: whether the requested key was known (keys unchanged) or
/// new (appended), every key keeps its slot, the requested key then has one, and the number of
/// slots handed out does not drop.
pub proof fn lemma_slots_kept(a: &SlotAllocator, b: &SlotAllocator, k: (u32, u32))
    requires
        a.wf(),
        b.wf(),
        b.keys() == a.keys() || b.keys() == a.keys().push(k),
        b.keys() == a.keys() ==> a.keys().contains(k),
    ensures
        forall|x: (u32, u32)| #[trigger] a.slots().contains_key(x) ==> b.slots().contains_key(x) && b.slots()[x] == a.slots()[x],
        b.slots().contains_key(k),
        a.next_slot() <= b.next_slot(),
{
    if b.keys() != a.keys() {
        let t = a.keys().push(k);
        assert(t[a.keys().len() as int] == k);
        assert(!a.keys().contains(k)) by {
            if a.keys().contains(k) {
                let j = choose|j: int| 0 <= j < a.keys().len() && a.keys()[j] == k;
                assert(t[j] == k);
            }
        }
        lemma_push_slots(a.keys@, k);
    }
}

proof fn lemma_index_is_unique(s: Seq<(u32, u32)>, k: (u32, u32), i: int)
    requires
        s.no_duplicates(),
        0 <= i < s.len(),
        s[i] == k,
    ensures
        s.contains(k),
        s.index_of(k) == i,
{
    assert(s.contains(k));
    let j = s.index_of(k);
    assert(0 <= j < s.len() && s[j] == k);
}

proof fn lemma_push_slots(s: Seq<(u32, u32)>, k: (u32, u32))
    requires
        s.no_duplicates(),
        s.push(k).no_duplicates(),
        !s.contains(k),
    ensures
        Map::new(
            |x: (u32, u32)| s.push(k).contains(x),
            |x: (u32, u32)| s.push(k).index_of(x) as u32,
        ) == Map::new(|x: (u32, u32)| s.contains(x), |x: (u32, u32)| s.index_of(x) as u32).insert(
            k,
            s.len() as u32,
        ),
{
    let t = s.push(k);
    let m1 = Map::new(|x: (u32, u32)| t.contains(x), |x: (u32, u32)| t.index_of(x) as u32);
    let m0 = Map::new(|x: (u32, u32)| s.contains(x), |x: (u32, u32)| s.index_of(x) as u32);
    assert forall|x: (u32, u32)| #[trigger] t.contains(x) <==> (s.contains(x) || x == k) by {
        if s.contains(x) {
            let i = choose|i: int| 0 <= i < s.len() && s[i] == x;
            assert(t[i] == x);
        }
        if t.contains(x) && x != k {
            let i = choose|i: int| 0 <= i < t.len() && t[i] == x;
            assert(s[i] == x);
        }
        if x == k {
            assert(t[s.len() as int] == k);
        }
    }
    assert forall|x: (u32, u32)| #[trigger] m1.contains_key(x) implies m1[x] == m0.insert(
        k,
        s.len() as u32,
    )[x] by {
        if x == k {
            lemma_index_is_unique(t, k, s.len() as int);
        } else {
            let i = s.index_of(x);
            assert(s[i] == x);
            lemma_index_is_unique(s, x, i);
            assert(t[i] == x);
            lemma_index_is_unique(t, x, i);
        }
    }
    assert(m1 =~= m0.insert(k, s.len() as u32));
}

} // verus!
