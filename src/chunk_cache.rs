//! The bounded-cache loader: a fixed number of resident chunks, with the
//! least recently used one evicted to make room.
use vstd::prelude::*;
use crate::pos_map::{
    entries_map, has_key, keys_distinct, lemma_entry_in_map, lemma_push_entry, lemma_remove_entry,
};

verus! {

/// The coordinates of a list of entries, in order.
pub open spec fn keys_of<V>(s: Seq<((i32, i32), V)>) -> Seq<(i32, i32)> {
    s.map_values(|e: ((i32, i32), V)| e.0)
}

/// A cache of at most `capacity` chunks. Its entries are kept in recency
/// order: the least recently loaded coordinate first.
pub struct ChunkCache<V> {
    entries: Vec<((i32, i32), V)>,
    max_size: usize,
}

impl<V> ChunkCache<V> {
    /// Resident coordinates, least recently used first.
    pub closed spec fn recency(&self) -> Seq<(i32, i32)> {
        keys_of(self.entries@)
    }

    /// What is stored for each resident coordinate.
    pub closed spec fn values(&self) -> Map<(i32, i32), V> {
        entries_map(self.entries@)
    }

    pub closed spec fn spec_capacity(&self) -> nat {
        self.max_size as nat
    }

    pub closed spec fn wf(&self) -> bool {
        &&& keys_distinct(self.entries@)
        &&& self.entries@.len() <= self.max_size
        &&& self.max_size >= 1
    }

    /// The resident coordinates are exactly the keys of the stored values,
    /// each once, and there are never more than the capacity.
    pub proof fn lemma_bounded(&self)
        requires
            self.wf(),
        ensures
            self.recency().len() <= self.spec_capacity(),
            self.recency().no_duplicates(),
            forall|p: (i32, i32)| self.values().dom().contains(p) <==> self.recency().contains(p),
    {
        let s = self.entries@;
        assert forall|p: (i32, i32)| self.values().dom().contains(p) <==> self.recency().contains(p) by {
            if self.recency().contains(p) {
                let i = choose|i: int| 0 <= i < self.recency().len() && self.recency()[i] == p;
                lemma_entry_in_map(s, i);
            }
            if self.values().dom().contains(p) {
                let i = choose|i: int| 0 <= i < s.len() && (#[trigger] s[i]).0 == p;
                assert(self.recency()[i] == p);
            }
        }
    }

    pub fn new(capacity: usize) -> (r: ChunkCache<V>)
        requires
            capacity >= 1,
        ensures
            r.wf(),
            r.spec_capacity() == capacity,
            r.recency() == Seq::<(i32, i32)>::empty(),
    {
        let r = ChunkCache { entries: Vec::new(), max_size: capacity };
        assert(r.recency() =~= Seq::<(i32, i32)>::empty());
        r
    }

    pub fn capacity(&self) -> (r: usize)
        ensures
            r == self.spec_capacity(),
    {
        self.max_size
    }

    pub fn len(&self) -> (r: usize)
        ensures
            r == self.recency().len(),
    {
        self.entries.len()
    }

    pub fn contains(&self, pos: (i32, i32)) -> (r: bool)
        ensures
            r == self.recency().contains(pos),
    {
        let mut i: usize = 0;
        while i < self.entries.len()
            invariant
                i <= self.entries@.len(),
                forall|j: int| 0 <= j < i ==> self.recency()[j] != pos,
            decreases self.entries@.len() - i,
        {
            let k = self.entries[i].0;
            if k.0 == pos.0 && k.1 == pos.1 {
                assert(self.recency()[i as int] == pos);
                return true;
            }
            i += 1;
        }
        false
    }

    /// Where `pos` stands in the recency order, if it is resident.
    fn position(&self, pos: (i32, i32)) -> (r: Option<usize>)
        requires
            self.wf(),
        ensures
            match r {
                Some(i) => i < self.entries@.len() && self.entries@[i as int].0 == pos,
                None => !has_key(self.entries@, pos),
            },
    {
        let mut i: usize = 0;
        while i < self.entries.len()
            invariant
                i <= self.entries@.len(),
                forall|j: int| 0 <= j < i ==> (#[trigger] self.entries@[j]).0 != pos,
            decreases self.entries@.len() - i,
        {
            let k = self.entries[i].0;
            if k.0 == pos.0 && k.1 == pos.1 {
                return Some(i);
            }
            i += 1;
        }
        None
    }

    /// Makes `pos` resident and most recently used. A resident coordinate is
    /// only moved to the back of the recency order (nothing is regenerated).
    /// Otherwise `generate` builds its value; if the cache is full, the least
    /// recently used coordinate is evicted first and returned.
    pub fn load_chunk<F: FnOnce((i32, i32)) -> V>(&mut self, pos: (i32, i32), generate: F) -> (r:
        Option<(i32, i32)>)
        requires
            old(self).wf(),
            generate.requires((pos,)),
        ensures
            final(self).wf(),
            final(self).spec_capacity() == old(self).spec_capacity(),
            old(self).recency().contains(pos) ==> {
                &&& r is None
                &&& final(self).values() == old(self).values()
                &&& exists|i: int|
                    0 <= i < old(self).recency().len() && old(self).recency()[i] == pos
                        && final(self).recency() == old(self).recency().remove(i).push(pos)
            },
            !old(self).recency().contains(pos) && old(self).recency().len() < old(self).spec_capacity()
                ==> {
                &&& r is None
                &&& final(self).recency() == old(self).recency().push(pos)
                &&& generate.ensures((pos,), final(self).values()[pos])
                &&& final(self).values() == old(self).values().insert(pos, final(self).values()[pos])
            },
            !old(self).recency().contains(pos) && old(self).recency().len() == old(self).spec_capacity()
                ==> {
                &&& r == Some(old(self).recency()[0])
                &&& final(self).recency() == old(self).recency().skip(1).push(pos)
                &&& generate.ensures((pos,), final(self).values()[pos])
                &&& final(self).values() == old(self).values().remove(old(self).recency()[0]).insert(
                    pos,
                    final(self).values()[pos],
                )
            },
    {
        let ghost s0 = self.entries@;
        proof {
            self.lemma_bounded();
        }
        match self.position(pos) {
            Some(i) => {
                proof {
                    lemma_remove_entry(s0, i as int);
                    lemma_push_entry(s0.remove(i as int), pos, s0[i as int].1);
                    lemma_entry_in_map(s0, i as int);
                    assert(entries_map(s0).remove(pos).insert(pos, s0[i as int].1) =~= entries_map(s0));
                    assert(keys_of(s0.remove(i as int).push(s0[i as int])) =~= keys_of(s0).remove(
                        i as int,
                    ).push(pos));
                }
                let e = self.entries.remove(i);
                self.entries.push(e);
                None
            },
            None => {
                assert(!self.recency().contains(pos)) by {
                    if self.recency().contains(pos) {
                        let j = choose|j: int| 0 <= j < self.recency().len() && self.recency()[j] == pos;
                        assert(s0[j].0 == pos);
                    }
                }
                let v = generate(pos);
                if self.entries.len() < self.max_size {
                    proof {
                        lemma_push_entry(s0, pos, v);
                        lemma_entry_in_map(s0.push((pos, v)), s0.len() as int);
                        assert(keys_of(s0.push((pos, v))) =~= keys_of(s0).push(pos));
                    }
                    self.entries.push((pos, v));
                    None
                } else {
                    proof {
                        lemma_remove_entry(s0, 0);
                        assert(!has_key(s0.remove(0), pos)) by {
                            if has_key(s0.remove(0), pos) {
                                let j = choose|j: int| 0 <= j < s0.remove(0).len() && (#[trigger] s0.remove(0)[j]).0 == pos;
                                assert(s0[j + 1].0 == pos);
                            }
                        }
                        lemma_push_entry(s0.remove(0), pos, v);
                        lemma_entry_in_map(s0.remove(0).push((pos, v)), s0.len() - 1);
                        assert(keys_of(s0.remove(0).push((pos, v))) =~= keys_of(s0).skip(1).push(pos));
                    }
                    let evicted = self.entries.remove(0);
                    self.entries.push((pos, v));
                    Some(evicted.0)
                }
            },
        }
    }

    /// The stored values, least recently used first.
    pub fn meshes(&self) -> (r: Vec<&V>)
        requires
            self.wf(),
        ensures
            r@.len() == self.recency().len(),
            forall|k: int| 0 <= k < r@.len() ==> *(#[trigger] r@[k]) == self.values()[self.recency()[k]],
    {
        let mut r: Vec<&V> = Vec::new();
        let mut i: usize = 0;
        while i < self.entries.len()
            invariant
                self.wf(),
                i <= self.entries@.len(),
                r@.len() == i,
                forall|k: int| 0 <= k < i ==> *(#[trigger] r@[k]) == self.entries@[k].1,
            decreases self.entries@.len() - i,
        {
            r.push(&self.entries[i].1);
            i += 1;
        }
        proof {
            assert forall|k: int| 0 <= k < r@.len() implies *(#[trigger] r@[k]) == self.values()[self.recency()[k]] by {
                lemma_entry_in_map(self.entries@, k);
            }
        }
        r
    }
}

} // verus!
