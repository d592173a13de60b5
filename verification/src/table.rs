//! A keyed record table: the contracts' persistent storage, keyed by a string
//! identifier (budget id, policy id, address strkey). Its abstract view is a
//! finite map from key text to record.
use vstd::prelude::*;

verus! {

/// Records keyed by string, each key present at most once.
pub struct Table<V> {
    entries: Vec<(String, V)>,
}

impl<V> Table<V> {
    #[verifier::type_invariant]
    closed spec fn keys_distinct(self) -> bool {
        forall|i: int, j: int|
            0 <= i < j < self.entries@.len() ==> #[trigger] self.entries@[i].0@
                != #[trigger] self.entries@[j].0@
    }

    /// Whether `k` is one of the stored keys.
    closed spec fn holds(self, k: Seq<char>) -> bool {
        exists|i: int| 0 <= i < self.entries@.len() && #[trigger] self.entries@[i].0@ == k
    }

    /// The position of key `k` (meaningful when `holds(k)`).
    closed spec fn pos(self, k: Seq<char>) -> int {
        choose|i: int| 0 <= i < self.entries@.len() && #[trigger] self.entries@[i].0@ == k
    }

    /// The table as a map from key text to record.
    pub closed spec fn view(self) -> Map<Seq<char>, V> {
        Map::new(|k: Seq<char>| self.holds(k), |k: Seq<char>| self.entries@[self.pos(k)].1)
    }

    proof fn lemma_pos(self, i: int)
        requires
            self.keys_distinct(),
            0 <= i < self.entries@.len(),
        ensures
            self.holds(self.entries@[i].0@),
            self.pos(self.entries@[i].0@) == i,
            self.view().contains_key(self.entries@[i].0@),
            self.view()[self.entries@[i].0@] == self.entries@[i].1,
    {
        let k = self.entries@[i].0@;
        assert(self.holds(k));
        let j = self.pos(k);
        if j != i {
            if j < i {
                assert(self.entries@[j].0@ != self.entries@[i].0@);
            } else {
                assert(self.entries@[i].0@ != self.entries@[j].0@);
            }
        }
    }

    /// Move the entries out, leaving an empty table behind.
    fn take_entries(&mut self) -> (r: Vec<(String, V)>)
        ensures
            r@ == old(self).entries@,
    {
        let mut t = Table { entries: Vec::new() };
        std::mem::swap(self, &mut t);
        t.entries
    }

    /// An empty table.
    pub fn new() -> (t: Self)
        ensures
            t.view() == Map::<Seq<char>, V>::empty(),
    {
        let t = Table { entries: Vec::new() };
        assert(t.view() =~= Map::<Seq<char>, V>::empty());
        t
    }

    /// The position of `k`, if stored.
    fn find(&self, k: &String) -> (r: Option<usize>)
        ensures
            match r {
                Some(i) => i < self.entries@.len() && self.entries@[i as int].0@ == k@,
                None => !self.holds(k@),
            },
    {
        let mut i: usize = 0;
        while i < self.entries.len()
            invariant
                i <= self.entries@.len(),
                forall|j: int| 0 <= j < i ==> self.entries@[j].0@ != k@,
            decreases self.entries@.len() - i,
        {
            if self.entries[i].0 == *k {
                return Some(i);
            }
            i = i + 1;
        }
        None
    }

    /// Whether a record is stored under `k`.
    pub fn contains(&self, k: &String) -> (r: bool)
        ensures
            r == self.view().contains_key(k@),
    {
        self.find(k).is_some()
    }

    /// The record stored under `k`, if any.
    pub fn get(&self, k: &String) -> (r: Option<&V>)
        ensures
            match r {
                Some(v) => self.view().contains_key(k@) && *v == self.view()[k@],
                None => !self.view().contains_key(k@),
            },
    {
        proof {
            use_type_invariant(self);
        }
        match self.find(k) {
            Some(i) => {
                proof {
                    self.lemma_pos(i as int);
                }
                Some(&self.entries[i].1)
            },
            None => None,
        }
    }

    /// Store `v` under `k`, replacing any previous record.
    pub fn insert(&mut self, k: String, v: V)
        ensures
            final(self).view() == old(self).view().insert(k@, v),
    {
        proof {
            use_type_invariant(&*self);
        }
        let ghost old_t = *self;
        let ghost kv = k@;
        match self.find(&k) {
            Some(i) => {
                let mut entries = self.take_entries();
                entries.set(i, (k, v));
                *self = Table { entries };
                proof {
                    assert forall|a: int, b: int|
                        0 <= a < b < self.entries@.len() implies #[trigger] self.entries@[a].0@
                        != #[trigger] self.entries@[b].0@ by {
                        assert(old_t.entries@[a].0@ != old_t.entries@[b].0@);
                    }
                    assert(self.keys_distinct());
                    self.lemma_pos(i as int);
                    assert forall|key: Seq<char>|
                        #![trigger self.view().contains_key(key)]
                        key != kv implies (self.view().contains_key(key)
                        == old_t.view().contains_key(key)) && (old_t.view().contains_key(key)
                        ==> self.view()[key] == old_t.view()[key]) by {
                        if old_t.holds(key) {
                            let p = old_t.pos(key);
                            old_t.lemma_pos(p);
                            assert(p != i);
                            self.lemma_pos(p);
                        }
                        if self.holds(key) {
                            let p = self.pos(key);
                            self.lemma_pos(p);
                            assert(old_t.entries@[p].0@ == key);
                        }
                    }
                    assert(self.view() =~= old_t.view().insert(kv, v));
                }
            },
            None => {
                let mut entries = self.take_entries();
                entries.push((k, v));
                *self = Table { entries };
                proof {
                    let n = old_t.entries@.len() as int;
                    assert forall|a: int, b: int|
                        0 <= a < b < self.entries@.len() implies #[trigger] self.entries@[a].0@
                        != #[trigger] self.entries@[b].0@ by {
                        if b == n {
                            assert(old_t.entries@[a].0@ != kv);
                        } else {
                            assert(old_t.entries@[a].0@ != old_t.entries@[b].0@);
                        }
                    }
                    assert(self.keys_distinct());
                    self.lemma_pos(n);
                    assert forall|key: Seq<char>|
                        #![trigger self.view().contains_key(key)]
                        key != kv implies (self.view().contains_key(key)
                        == old_t.view().contains_key(key)) && (old_t.view().contains_key(key)
                        ==> self.view()[key] == old_t.view()[key]) by {
                        if old_t.holds(key) {
                            let p = old_t.pos(key);
                            old_t.lemma_pos(p);
                            self.lemma_pos(p);
                        }
                        if self.holds(key) {
                            let p = self.pos(key);
                            self.lemma_pos(p);
                            assert(p != n);
                            assert(old_t.entries@[p].0@ == key);
                        }
                    }
                    assert(self.view() =~= old_t.view().insert(kv, v));
                }
            },
        }
    }

    /// Take the record stored under `k` out of the table.
    pub fn remove(&mut self, k: &String) -> (r: Option<V>)
        ensures
            final(self).view() == old(self).view().remove(k@),
            match r {
                Some(v) => old(self).view().contains_key(k@) && v == old(self).view()[k@],
                None => !old(self).view().contains_key(k@),
            },
    {
        proof {
            use_type_invariant(&*self);
        }
        let ghost old_t = *self;
        match self.find(k) {
            Some(i) => {
                proof {
                    old_t.lemma_pos(i as int);
                }
                let mut entries = self.take_entries();
                let (_, v) = entries.remove(i);
                *self = Table { entries };
                proof {
                    let n = old_t.entries@.len() as int;
                    assert forall|a: int, b: int|
                        0 <= a < b < self.entries@.len() implies #[trigger] self.entries@[a].0@
                        != #[trigger] self.entries@[b].0@ by {
                        let oa = if a < i { a } else { a + 1 };
                        let ob = if b < i { b } else { b + 1 };
                        assert(self.entries@[a] == old_t.entries@[oa]);
                        assert(self.entries@[b] == old_t.entries@[ob]);
                        assert(old_t.entries@[oa].0@ != old_t.entries@[ob].0@);
                    }
                    assert(self.keys_distinct());
                    assert forall|key: Seq<char>|
                        #![trigger self.view().contains_key(key)]
                        key != k@ implies (self.view().contains_key(key)
                        == old_t.view().contains_key(key)) && (old_t.view().contains_key(key)
                        ==> self.view()[key] == old_t.view()[key]) by {
                        if old_t.holds(key) {
                            let p = old_t.pos(key);
                            old_t.lemma_pos(p);
                            assert(p != i);
                            let q = if p < i { p } else { p - 1 };
                            assert(self.entries@[q] == old_t.entries@[p]);
                            self.lemma_pos(q);
                        }
                        if self.holds(key) {
                            let p = self.pos(key);
                            self.lemma_pos(p);
                            let op = if p < i { p } else { p + 1 };
                            assert(self.entries@[p] == old_t.entries@[op]);
                        }
                    }
                    assert(!self.holds(k@)) by {
                        if self.holds(k@) {
                            let p = self.pos(k@);
                            let op = if p < i { p } else { p + 1 };
                            assert(self.entries@[p] == old_t.entries@[op]);
                            if op < i {
                                assert(old_t.entries@[op].0@ != old_t.entries@[i as int].0@);
                            } else {
                                assert(old_t.entries@[i as int].0@ != old_t.entries@[op].0@);
                            }
                        }
                    }
                    assert(self.view() =~= old_t.view().remove(k@));
                }
                Some(v)
            },
            None => {
                proof {
                    assert(self.view() =~= old_t.view().remove(k@));
                }
                None
            },
        }
    }
}

} // verus!
