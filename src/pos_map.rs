//! A small map keyed by chunk coordinate that keeps its entries in insertion order.
use vstd::prelude::*;

verus! {

/// Whether some entry of `s` has key `p`.
pub open spec fn has_key<V>(s: Seq<((i32, i32), V)>, p: (i32, i32)) -> bool {
    exists|i: int| 0 <= i < s.len() && (#[trigger] s[i]).0 == p
}

/// No two entries of `s` share a key.
pub open spec fn keys_distinct<V>(s: Seq<((i32, i32), V)>) -> bool {
    forall|i: int, j: int|
        0 <= i < s.len() && 0 <= j < s.len() && i != j ==> (#[trigger] s[i]).0 != (#[trigger] s[j]).0
}

/// The map that a list of entries with distinct keys stands for.
pub open spec fn entries_map<V>(s: Seq<((i32, i32), V)>) -> Map<(i32, i32), V> {
    Map::new(
        |p: (i32, i32)| has_key(s, p),
        |p: (i32, i32)| s[choose|i: int| 0 <= i < s.len() && (#[trigger] s[i]).0 == p].1,
    )
}

pub proof fn lemma_entry_in_map<V>(s: Seq<((i32, i32), V)>, i: int)
    requires
        keys_distinct(s),
        0 <= i < s.len(),
    ensures
        entries_map(s).dom().contains(s[i].0),
        entries_map(s)[s[i].0] == s[i].1,
{
    let p = s[i].0;
    assert(has_key(s, p));
    let j = choose|j: int| 0 <= j < s.len() && (#[trigger] s[j]).0 == p;
    assert(j == i);
}

/// Appending an entry with a new key adds that key to the map.
pub proof fn lemma_push_entry<V>(s0: Seq<((i32, i32), V)>, p: (i32, i32), v: V)
    requires
        keys_distinct(s0),
        !has_key(s0, p),
    ensures
        keys_distinct(s0.push((p, v))),
        entries_map(s0.push((p, v))) == entries_map(s0).insert(p, v),
{
    let s1 = s0.push((p, v));
    assert(keys_distinct(s1));
    lemma_entry_in_map(s1, s0.len() as int);
    assert forall|q: (i32, i32)|
        #![auto]
        entries_map(s1).dom().contains(q) == (q == p || has_key(s0, q)) by {
        if has_key(s1, q) {
            let j = choose|j: int| 0 <= j < s1.len() && (#[trigger] s1[j]).0 == q;
            if j != s0.len() {
                assert(s0[j].0 == q);
            }
        }
        if has_key(s0, q) {
            let j = choose|j: int| 0 <= j < s0.len() && (#[trigger] s0[j]).0 == q;
            assert(s1[j].0 == q);
        }
    }
    assert forall|q: (i32, i32)|
        #![auto]
        entries_map(s1).dom().contains(q) && q != p implies entries_map(s1)[q] == entries_map(s0)[q] by {
        let j = choose|j: int| 0 <= j < s1.len() && (#[trigger] s1[j]).0 == q;
        lemma_entry_in_map(s1, j);
        lemma_entry_in_map(s0, j);
    }
    assert(entries_map(s1) =~= entries_map(s0).insert(p, v));
}

/// Removing the entry at `i` removes its key from the map.
pub proof fn lemma_remove_entry<V>(s0: Seq<((i32, i32), V)>, i: int)
    requires
        keys_distinct(s0),
        0 <= i < s0.len(),
    ensures
        keys_distinct(s0.remove(i)),
        entries_map(s0.remove(i)) == entries_map(s0).remove(s0[i].0),
        !has_key(s0.remove(i), s0[i].0),
{
    let p = s0[i].0;
    let s1 = s0.remove(i);
    assert forall|a: int, b: int|
        0 <= a < s1.len() && 0 <= b < s1.len() && a != b implies (#[trigger] s1[a]).0 != (#[trigger] s1[b]).0 by {
        let a0 = if a < i { a } else { a + 1 };
        let b0 = if b < i { b } else { b + 1 };
        assert(s1[a] == s0[a0]);
        assert(s1[b] == s0[b0]);
    }
    assert forall|q: (i32, i32)|
        #![auto]
        entries_map(s1).dom().contains(q) == (q != p && has_key(s0, q)) by {
        if has_key(s1, q) {
            let j = choose|j: int| 0 <= j < s1.len() && (#[trigger] s1[j]).0 == q;
            let j0 = if j < i { j } else { j + 1 };
            assert(s0[j0].0 == q);
            assert(j0 != i);
        }
        if q != p && has_key(s0, q) {
            let j = choose|j: int| 0 <= j < s0.len() && (#[trigger] s0[j]).0 == q;
            assert(j != i);
            let j1 = if j < i { j } else { j - 1 };
            assert(s1[j1].0 == q);
        }
    }
    assert forall|q: (i32, i32)|
        #![auto]
        entries_map(s1).dom().contains(q) implies entries_map(s1)[q] == entries_map(s0)[q] by {
        let j = choose|j: int| 0 <= j < s1.len() && (#[trigger] s1[j]).0 == q;
        let j0 = if j < i { j } else { j + 1 };
        assert(s1[j] == s0[j0]);
        lemma_entry_in_map(s1, j);
        lemma_entry_in_map(s0, j0);
    }
    assert(entries_map(s1) =~= entries_map(s0).remove(p));
    assert(!entries_map(s1).dom().contains(p));
}

/// Entries keyed by chunk coordinate, distinct keys, in insertion order.
pub struct PosMap<V> {
    entries: Vec<((i32, i32), V)>,
}

impl<V> View for PosMap<V> {
    type V = Map<(i32, i32), V>;

    closed spec fn view(&self) -> Map<(i32, i32), V> {
        entries_map(self.entries@)
    }
}

impl<V> PosMap<V> {
    /// The entries in insertion order.
    pub closed spec fn entries(&self) -> Seq<((i32, i32), V)> {
        self.entries@
    }

    pub closed spec fn wf(&self) -> bool {
        keys_distinct(self.entries@)
    }

    pub proof fn lemma_view(&self)
        requires
            self.wf(),
        ensures
            self@ == entries_map(self.entries()),
            keys_distinct(self.entries()),
    {
    }

    pub fn new() -> (r: PosMap<V>)
        ensures
            r.wf(),
            r@ == Map::<(i32, i32), V>::empty(),
            r.entries() == Seq::<((i32, i32), V)>::empty(),
    {
        let r = PosMap { entries: Vec::new() };
        assert(r@ =~= Map::<(i32, i32), V>::empty());
        r
    }

    pub fn len(&self) -> (r: usize)
        ensures
            r == self.entries().len(),
    {
        self.entries.len()
    }

    /// The entry at position `i` of the insertion order.
    pub fn entry(&self, i: usize) -> (r: &((i32, i32), V))
        requires
            i < self.entries().len(),
        ensures
            *r == self.entries()[i as int],
    {
        &self.entries[i]
    }

    /// Where the entry for `p` stands, if there is one.
    pub fn index_of(&self, p: (i32, i32)) -> (r: Option<usize>)
        requires
            self.wf(),
        ensures
            match r {
                Some(i) => i < self.entries().len() && self.entries()[i as int].0 == p,
                None => !self@.dom().contains(p),
            },
            r is Some <==> self@.dom().contains(p),
    {
        let mut i: usize = 0;
        while i < self.entries.len()
            invariant
                self.wf(),
                i <= self.entries@.len(),
                forall|j: int| 0 <= j < i ==> (#[trigger] self.entries@[j]).0 != p,
            decreases self.entries@.len() - i,
        {
            let k = self.entries[i].0;
            if k.0 == p.0 && k.1 == p.1 {
                proof {
                    lemma_entry_in_map(self.entries@, i as int);
                }
                return Some(i);
            }
            i += 1;
        }
        None
    }

    pub fn contains_key(&self, p: (i32, i32)) -> (r: bool)
        requires
            self.wf(),
        ensures
            r == self@.dom().contains(p),
    {
        self.index_of(p).is_some()
    }

    pub fn get(&self, p: (i32, i32)) -> (r: Option<&V>)
        requires
            self.wf(),
        ensures
            match r {
                Some(v) => self@.dom().contains(p) && *v == self@[p],
                None => !self@.dom().contains(p),
            },
    {
        match self.index_of(p) {
            Some(i) => {
                proof {
                    lemma_entry_in_map(self.entries@, i as int);
                }
                Some(&self.entries[i].1)
            },
            None => None,
        }
    }

    /// Sets the value for `p`: in place if `p` has an entry, else as a new last entry.
    pub fn insert(&mut self, p: (i32, i32), v: V)
        requires
            old(self).wf(),
        ensures
            final(self).wf(),
            final(self)@ == old(self)@.insert(p, v),
    {
        let ghost s0 = self.entries@;
        match self.index_of(p) {
            Some(i) => {
                self.entries.set(i, (p, v));
                proof {
                    let s1 = self.entries@;
                    assert(s1 == s0.update(i as int, (p, v)));
                    assert(keys_distinct(s1));
                    lemma_entry_in_map(s1, i as int);
                    assert forall|q: (i32, i32)|
                        #![auto]
                        entries_map(s1).dom().contains(q) == (q == p || has_key(s0, q)) by {
                        if has_key(s1, q) {
                            let j = choose|j: int| 0 <= j < s1.len() && (#[trigger] s1[j]).0 == q;
                            if j != i {
                                assert(s0[j].0 == q);
                            }
                        }
                        if q != p && has_key(s0, q) {
                            let j = choose|j: int| 0 <= j < s0.len() && (#[trigger] s0[j]).0 == q;
                            assert(s1[j].0 == q);
                        }
                    }
                    assert forall|q: (i32, i32)|
                        #![auto]
                        entries_map(s1).dom().contains(q) && q != p implies entries_map(s1)[q]
                            == entries_map(s0)[q] by {
                        let j = choose|j: int| 0 <= j < s1.len() && (#[trigger] s1[j]).0 == q;
                        lemma_entry_in_map(s1, j);
                        lemma_entry_in_map(s0, j);
                    }
                    assert(entries_map(s1) =~= entries_map(s0).insert(p, v));
                }
            },
            None => {
                proof {
                    lemma_push_entry(s0, p, v);
                }
                self.entries.push((p, v));
            },
        }
    }

    /// Removes the entry for `p`, if any, keeping the order of the others.
    pub fn remove(&mut self, p: (i32, i32)) -> (r: Option<V>)
        requires
            old(self).wf(),
        ensures
            final(self).wf(),
            final(self)@ == old(self)@.remove(p),
            match r {
                Some(v) => old(self)@.dom().contains(p) && v == old(self)@[p],
                None => !old(self)@.dom().contains(p),
            },
    {
        let ghost s0 = self.entries@;
        match self.index_of(p) {
            Some(i) => {
                proof {
                    lemma_entry_in_map(s0, i as int);
                }
                proof {
                    lemma_remove_entry(s0, i as int);
                }
                let e = self.entries.remove(i);
                Some(e.1)
            },
            None => {
                assert(entries_map(s0) =~= entries_map(s0).remove(p));
                None
            },
        }
    }
}

} // verus!
