use vstd::prelude::*;

verus! {

/// Whether two byte strings are equal.
pub fn bytes_equal(a: &[u8], b: &[u8]) -> (r: bool)
    ensures
        r == (a@ == b@),
{
    if a.len() != b.len() {
        return false;
    }
    let mut i: usize = 0;
    while i < a.len()
        invariant
            a@.len() == b@.len(),
            0 <= i <= a@.len(),
            forall|k: int| 0 <= k < i ==> a@[k] == b@[k],
        decreases a@.len() - i,
    {
        if a[i] != b[i] {
            return false;
        }
        i = i + 1;
    }
    assert(a@ =~= b@);
    true
}

/// A map keyed by byte strings, kept as a list of distinct keys, the most
/// recently stored last.
pub struct ByteKeyMap<V> {
    entries: Vec<(Vec<u8>, V)>,
}

impl<V> ByteKeyMap<V> {
    pub closed spec fn keys_distinct(&self) -> bool {
        forall|i: int, j: int| 0 <= i < j < self.entries@.len()
            ==> (#[trigger] self.entries@[i]).0@ != (#[trigger] self.entries@[j]).0@
    }

    pub closed spec fn wf(&self) -> bool {
        self.keys_distinct()
    }

    pub closed spec fn view(&self) -> Map<Seq<u8>, V> {
        Map::new(
            |k: Seq<u8>| exists|i: int| 0 <= i < self.entries@.len() && self.entries@[i].0@ == k,
            |k: Seq<u8>| self.entries@[choose|i: int| 0 <= i < self.entries@.len() && self.entries@[i].0@ == k].1,
        )
    }

    pub fn new() -> (r: Self)
        ensures
            r.wf(),
            r@ == Map::<Seq<u8>, V>::empty(),
    {
        let r = ByteKeyMap { entries: Vec::new() };
        assert(r@ =~= Map::<Seq<u8>, V>::empty());
        r
    }

    fn position(&self, key: &[u8]) -> (r: Option<usize>)
        requires
            self.wf(),
        ensures
            r matches Some(i) ==> i < self.entries@.len() && self.entries@[i as int].0@ == key@,
            r is None ==> !self@.contains_key(key@),
    {
        let mut i: usize = 0;
        while i < self.entries.len()
            invariant
                0 <= i <= self.entries@.len(),
                forall|k: int| 0 <= k < i ==> self.entries@[k].0@ != key@,
            decreases self.entries@.len() - i,
        {
            if bytes_equal(self.entries[i].0.as_slice(), key) {
                return Some(i);
            }
            i = i + 1;
        }
        None
    }

    proof fn lemma_value_at(&self, i: int)
        requires
            self.wf(),
            0 <= i < self.entries@.len(),
        ensures
            self@.contains_key(self.entries@[i].0@),
            self@[self.entries@[i].0@] == self.entries@[i].1,
    {
        let k = self.entries@[i].0@;
        let j = choose|j: int| 0 <= j < self.entries@.len() && self.entries@[j].0@ == k;
        if j != i {
            if j < i {
                assert(self.entries@[j].0@ != self.entries@[i].0@);
            } else {
                assert(self.entries@[i].0@ != self.entries@[j].0@);
            }
        }
    }

    /// The value under `key`.
    pub fn get(&self, key: &[u8]) -> (r: Option<&V>)
        requires
            self.wf(),
        ensures
            self@.contains_key(key@) ==> r == Some(&self@[key@]),
            !self@.contains_key(key@) ==> r is None,
    {
        match self.position(key) {
            Some(i) => {
                proof {
                    self.lemma_value_at(i as int);
                }
                Some(&self.entries[i].1)
            },
            None => None,
        }
    }

    /// Whether a value is stored under `key`.
    pub fn contains_key(&self, key: &[u8]) -> (r: bool)
        requires
            self.wf(),
        ensures
            r == self@.contains_key(key@),
    {
        match self.position(key) {
            Some(i) => {
                proof {
                    self.lemma_value_at(i as int);
                }
                true
            },
            None => false,
        }
    }

    /// Store `value` under `key`, replacing what was there.
    pub fn insert(&mut self, key: Vec<u8>, value: V)
        requires
            old(self).wf(),
        ensures
            final(self).wf(),
            final(self)@ == old(self)@.insert(key@, value),
    {
        let ghost k = key@;
        let ghost v = value;
        let pos = self.position(key.as_slice());
        let ghost before = self.entries@;
        match pos {
            Some(i) => {
                self.entries.remove(i);
                self.entries.push((key, value));
            },
            None => {
                self.entries.push((key, value));
            },
        }
        let ghost after = self.entries@;
        assert(self.keys_distinct()) by {
            assert forall|a: int, b: int| 0 <= a < b < after.len()
                implies (#[trigger] after[a]).0@ != (#[trigger] after[b]).0@ by {
                if b == after.len() - 1 {
                    match pos {
                        Some(i) => {
                            let a0 = if a < i { a } else { a + 1 };
                            assert(after[a] == before[a0]);
                            if a0 < i {
                                assert(before[a0].0@ != before[i as int].0@);
                            } else {
                                assert(before[i as int].0@ != before[a0].0@);
                            }
                        },
                        None => {
                            assert(after[a] == before[a]);
                        },
                    }
                } else {
                    match pos {
                        Some(i) => {
                            let a0 = if a < i { a } else { a + 1 };
                            let b0 = if b < i { b } else { b + 1 };
                            assert(after[a] == before[a0]);
                            assert(after[b] == before[b0]);
                            assert(before[a0].0@ != before[b0].0@);
                        },
                        None => {},
                    }
                }
            }
        }
        assert forall|key2: Seq<u8>| #[trigger] self@.contains_key(key2) == old(self)@.insert(k, v).contains_key(key2) by {
            if key2 != k {
                if self@.contains_key(key2) {
                    let j = choose|j: int| 0 <= j < after.len() && after[j].0@ == key2;
                    match pos {
                        Some(i) => {
                            let j0 = if j < i { j } else { j + 1 };
                            assert(after[j] == before[j0]);
                        },
                        None => {
                            assert(after[j] == before[j]);
                        },
                    }
                }
                if old(self)@.contains_key(key2) {
                    let j = choose|j: int| 0 <= j < before.len() && before[j].0@ == key2;
                    match pos {
                        Some(i) => {
                            assert(j != i);
                            let j1 = if j < i { j } else { j - 1 };
                            assert(after[j1] == before[j]);
                        },
                        None => {
                            assert(after[j] == before[j]);
                        },
                    }
                }
            } else {
                assert(after[after.len() - 1].0@ == k);
            }
        }
        assert forall|key2: Seq<u8>| #[trigger] self@.contains_key(key2) implies self@[key2] == old(self)@.insert(k, v)[key2] by {
            let j = choose|j: int| 0 <= j < after.len() && after[j].0@ == key2;
            self.lemma_value_at(j);
            if key2 == k {
                assert(after[after.len() - 1].0@ == k);
                self.lemma_value_at(after.len() - 1);
            } else {
                match pos {
                    Some(i) => {
                        let j0 = if j < i { j } else { j + 1 };
                        assert(after[j] == before[j0]);
                        old(self).lemma_value_at(j0);
                    },
                    None => {
                        assert(after[j] == before[j]);
                        old(self).lemma_value_at(j);
                    },
                }
            }
        }
        assert(self@ =~= old(self)@.insert(k, v));
    }

    /// Remove what is stored under `key`.
    pub fn remove(&mut self, key: &[u8])
        requires
            old(self).wf(),
        ensures
            final(self).wf(),
            final(self)@ == old(self)@.remove(key@),
    {
        let _ = self.take(key);
    }

    /// Remove and return what is stored under `key`.
    pub fn take(&mut self, key: &[u8]) -> (r: Option<V>)
        requires
            old(self).wf(),
        ensures
            final(self).wf(),
            final(self)@ == old(self)@.remove(key@),
            old(self)@.contains_key(key@) ==> r == Some(old(self)@[key@]),
            !old(self)@.contains_key(key@) ==> r is None,
    {
        let pos = self.position(key);
        let ghost before = self.entries@;
        let r = match pos {
            Some(i) => {
                proof {
                    self.lemma_value_at(i as int);
                }
                let (_, v) = self.entries.remove(i);
                Some(v)
            },
            None => None,
        };
        let ghost after = self.entries@;
        assert(self.keys_distinct()) by {
            assert forall|a: int, b: int| 0 <= a < b < after.len()
                implies (#[trigger] after[a]).0@ != (#[trigger] after[b]).0@ by {
                match pos {
                    Some(i) => {
                        let a0 = if a < i { a } else { a + 1 };
                        let b0 = if b < i { b } else { b + 1 };
                        assert(after[a] == before[a0]);
                        assert(after[b] == before[b0]);
                        assert(before[a0].0@ != before[b0].0@);
                    },
                    None => {},
                }
            }
        }
        assert forall|key2: Seq<u8>| #[trigger] self@.contains_key(key2) == old(self)@.remove(key@).contains_key(key2) by {
            if self@.contains_key(key2) {
                let j = choose|j: int| 0 <= j < after.len() && after[j].0@ == key2;
                match pos {
                    Some(i) => {
                        let j0 = if j < i { j } else { j + 1 };
                        assert(after[j] == before[j0]);
                        if key2 == key@ {
                            if j0 < i {
                                assert(before[j0].0@ != before[i as int].0@);
                            } else {
                                assert(before[i as int].0@ != before[j0].0@);
                            }
                        }
                    },
                    None => {
                        assert(after[j] == before[j]);
                    },
                }
            }
            if old(self)@.contains_key(key2) && key2 != key@ {
                let j = choose|j: int| 0 <= j < before.len() && before[j].0@ == key2;
                match pos {
                    Some(i) => {
                        assert(j != i);
                        let j1 = if j < i { j } else { j - 1 };
                        assert(after[j1] == before[j]);
                    },
                    None => {
                        assert(after[j] == before[j]);
                    },
                }
            }
        }
        assert forall|key2: Seq<u8>| #[trigger] self@.contains_key(key2) implies self@[key2] == old(self)@.remove(key@)[key2] by {
            let j = choose|j: int| 0 <= j < after.len() && after[j].0@ == key2;
            self.lemma_value_at(j);
            match pos {
                Some(i) => {
                    let j0 = if j < i { j } else { j + 1 };
                    assert(after[j] == before[j0]);
                    old(self).lemma_value_at(j0);
                },
                None => {
                    assert(after[j] == before[j]);
                    old(self).lemma_value_at(j);
                },
            }
        }
        assert(self@ =~= old(self)@.remove(key@));
        r
    }
}

} // verus!
