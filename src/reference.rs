use vstd::prelude::*;
use crate::keyed::bytes_equal;

verus! {

/// Default number of contig sequences kept.
pub const DEFAULT_CAPACITY: usize = 3;

/// A small cache of contig sequences, most recently used last. Contigs are
/// visited one after another, so a few suffice; the least recently used one
/// leaves first when the cache is full.
pub struct ReferenceBuffer {
    capacity: usize,
    /// Contig names and sequences, least recently used first.
    sequences: Vec<(Vec<u8>, Vec<u8>)>,
}

impl ReferenceBuffer {
    /// Contig names and sequences, least recently used first.
    pub closed spec fn entries(&self) -> Seq<(Seq<u8>, Seq<u8>)> {
        self.sequences@.map_values(|e: (Vec<u8>, Vec<u8>)| (e.0@, e.1@))
    }

    pub closed spec fn spec_capacity(&self) -> nat {
        self.capacity as nat
    }

    pub closed spec fn wf(&self) -> bool {
        &&& self.capacity >= 1
        &&& self.sequences@.len() <= self.capacity
        &&& forall|i: int, j: int| 0 <= i < j < self.sequences@.len()
            ==> (#[trigger] self.sequences@[i]).0@ != (#[trigger] self.sequences@[j]).0@
    }

    /// An empty buffer for at most `capacity` contigs.
    pub fn new(capacity: usize) -> (r: ReferenceBuffer)
        requires
            capacity >= 1,
        ensures
            r.wf(),
            r.spec_capacity() == capacity,
            r.entries().len() == 0,
    {
        ReferenceBuffer { capacity, sequences: Vec::new() }
    }

    /// Look up a contig; a hit becomes the most recently used entry.
    pub fn seq(&mut self, name: &[u8]) -> (r: Option<&Vec<u8>>)
        requires
            old(self).wf(),
        ensures
            final(self).wf(),
            final(self).spec_capacity() == old(self).spec_capacity(),
            match r {
                Some(s) => exists|i: int| 0 <= i < old(self).entries().len() && {
                    &&& #[trigger] old(self).entries()[i].0 == name@
                    &&& old(self).entries()[i].1 == s@
                    &&& final(self).entries() == old(self).entries().remove(i).push(old(self).entries()[i])
                },
                None => {
                    &&& forall|i: int| 0 <= i < old(self).entries().len() ==> (#[trigger] old(self).entries()[i]).0 != name@
                    &&& final(self).entries() == old(self).entries()
                },
            },
    {
        let n = self.sequences.len();
        let mut i: usize = 0;
        while i < n
            invariant
                n == self.sequences@.len(),
                self == old(self),
                self.wf(),
                0 <= i <= n,
                forall|k: int| 0 <= k < i ==> (#[trigger] self.sequences@[k]).0@ != name@,
            decreases n - i,
        {
            if bytes_equal(self.sequences[i].0.as_slice(), name) {
                let ghost before = self.sequences@;
                let e = self.sequences.remove(i);
                self.sequences.push(e);
                proof {
                    let after = self.sequences@;
                    assert(after =~= before.remove(i as int).push(before[i as int]));
                    assert(self.entries() =~= old(self).entries().remove(i as int).push(old(self).entries()[i as int]));
                    assert forall|a: int, b: int| 0 <= a < b < after.len()
                        implies (#[trigger] after[a]).0@ != (#[trigger] after[b]).0@ by {
                        let a0 = if a < i { a } else { a + 1 };
                        let b0 = if b == after.len() - 1 { i as int } else if b < i { b } else { b + 1 };
                        assert(after[a] == before[a0]);
                        assert(after[b] == before[b0]);
                        if a0 < b0 {
                            assert(before[a0].0@ != before[b0].0@);
                        } else {
                            assert(before[b0].0@ != before[a0].0@);
                        }
                    }
                    assert(old(self).entries()[i as int].0 == name@);
                }
                return Some(&self.sequences[n - 1].1);
            }
            i = i + 1;
        }
        proof {
            assert forall|k: int| 0 <= k < old(self).entries().len() implies (#[trigger] old(self).entries()[k]).0 != name@ by {
                assert(self.sequences@[k].0@ != name@);
            }
        }
        None
    }

    /// Add the sequence of a contig that is not buffered; when the buffer is
    /// full, the least recently used contig leaves.
    pub fn insert(&mut self, name: Vec<u8>, sequence: Vec<u8>)
        requires
            old(self).wf(),
            forall|i: int| 0 <= i < old(self).entries().len() ==> (#[trigger] old(self).entries()[i]).0 != name@,
        ensures
            final(self).wf(),
            final(self).spec_capacity() == old(self).spec_capacity(),
            old(self).entries().len() < old(self).spec_capacity() ==>
                final(self).entries() == old(self).entries().push((name@, sequence@)),
            old(self).entries().len() == old(self).spec_capacity() ==>
                final(self).entries() == old(self).entries().drop_first().push((name@, sequence@)),
    {
        let ghost key = name@;
        let ghost seq_view = sequence@;
        let ghost before = self.sequences@;
        let full = self.sequences.len() == self.capacity;
        if full {
            self.sequences.remove(0);
        }
        let ghost mid = self.sequences@;
        self.sequences.push((name, sequence));
        proof {
            let after = self.sequences@;
            assert forall|a: int, b: int| 0 <= a < b < after.len()
                implies (#[trigger] after[a]).0@ != (#[trigger] after[b]).0@ by {
                let off: int = if full { 1 } else { 0 };
                assert(after[a] == before[a + off]);
                if b < after.len() - 1 {
                    assert(after[b] == before[b + off]);
                } else {
                    assert(old(self).entries()[a + off].0 != key);
                }
            }
            if full {
                assert(self.entries() =~= old(self).entries().drop_first().push((key, seq_view)));
            } else {
                assert(self.entries() =~= old(self).entries().push((key, seq_view)));
            }
        }
    }
}

} // verus!
