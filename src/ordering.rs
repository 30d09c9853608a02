use vstd::prelude::*;

verus! {

/// Reassembles results that arrive out of order, each tagged with the index
/// of its input record, and hands them out in index order.
pub struct ReorderBuffer<T> {
    next: usize,
    /// Slot `k` holds the result with index `next + k`, once it has arrived.
    pending: Vec<Option<T>>,
}

impl<T> ReorderBuffer<T> {
    /// The index of the next result to hand out.
    pub closed spec fn next_index(&self) -> nat {
        self.next as nat
    }

    /// The results that arrived and were not handed out yet, by index.
    pub closed spec fn waiting(&self) -> Map<nat, T> {
        Map::new(
            |i: nat| self.next <= i < self.next + self.pending@.len() && self.pending@[i - self.next] is Some,
            |i: nat| self.pending@[i - self.next]->Some_0,
        )
    }

    pub closed spec fn wf(&self) -> bool {
        self.next + self.pending@.len() <= usize::MAX
    }

    pub fn new() -> (r: Self)
        ensures
            r.wf(),
            r.next_index() == 0,
            r.waiting() == Map::<nat, T>::empty(),
    {
        let r = ReorderBuffer { next: 0, pending: Vec::new() };
        assert(r.waiting() =~= Map::<nat, T>::empty());
        r
    }

    /// Take in the result with the given index.
    pub fn push(&mut self, index: usize, item: T)
        requires
            old(self).wf(),
            index >= old(self).next_index(),
            !old(self).waiting().contains_key(index as nat),
            index < usize::MAX,
        ensures
            final(self).wf(),
            final(self).next_index() == old(self).next_index(),
            final(self).waiting() == old(self).waiting().insert(index as nat, item),
    {
        let k = index - self.next;
        let ghost old_pending = self.pending@;
        while self.pending.len() <= k
            invariant
                self.next == old(self).next,
                k == index - self.next,
                index < usize::MAX,
                self.pending@.len() >= old_pending.len(),
                self.next + self.pending@.len() <= usize::MAX,
                forall|j: int| 0 <= j < old_pending.len() ==> self.pending@[j] == old_pending[j],
                forall|j: int| old_pending.len() <= j < self.pending@.len() ==> self.pending@[j] is None,
            decreases k + 1 - self.pending@.len(),
        {
            self.pending.push(None);
        }
        self.pending[k] = Some(item);
        assert(self.waiting() =~= old(self).waiting().insert(index as nat, item));
    }

    /// Hand out the result with the next index, if it has arrived.
    pub fn pop(&mut self) -> (r: Option<T>)
        requires
            old(self).wf(),
        ensures
            final(self).wf(),
            old(self).waiting().contains_key(old(self).next_index()) ==> {
                &&& r == Some(old(self).waiting()[old(self).next_index()])
                &&& final(self).next_index() == old(self).next_index() + 1
                &&& final(self).waiting() == old(self).waiting().remove(old(self).next_index())
            },
            !old(self).waiting().contains_key(old(self).next_index()) ==> {
                &&& r is None
                &&& final(self).next_index() == old(self).next_index()
                &&& final(self).waiting() == old(self).waiting()
            },
    {
        if self.pending.len() > 0 && self.pending[0].is_some() {
            let item = self.pending.remove(0);
            self.next = self.next + 1;
            assert(self.waiting() =~= old(self).waiting().remove(old(self).next_index()));
            item
        } else {
            None
        }
    }
}

/// The item that the bundle with the given index carries.
pub open spec fn item_with_index<T>(bundles: Seq<(usize, T)>, k: int) -> T {
    bundles[choose|i: int| 0 <= i < bundles.len() && bundles[i].0 == k].1
}

/// Whether one of the first `j` bundles has index `k`.
pub open spec fn arrived<T>(bundles: Seq<(usize, T)>, j: int, k: int) -> bool {
    exists|i: int| 0 <= i < j && bundles[i].0 == k
}

/// The indices of the bundles are exactly `0..n`, each once.
pub open spec fn is_index_permutation<T>(bundles: Seq<(usize, T)>) -> bool {
    &&& forall|i: int| 0 <= i < bundles.len() ==> (#[trigger] bundles[i]).0 < bundles.len()
    &&& forall|i: int, j: int| 0 <= i < j < bundles.len() ==> (#[trigger] bundles[i]).0 != (#[trigger] bundles[j]).0
}

proof fn lemma_permutation_covers<T>(bundles: Seq<(usize, T)>, k: int)
    requires
        is_index_permutation(bundles),
        0 <= k < bundles.len(),
    ensures
        exists|i: int| 0 <= i < bundles.len() && bundles[i].0 == k,
{
    let idx = bundles.map_values(|b: (usize, T)| b.0 as int);
    let s = idx.to_set();
    let full = Set::new(|x: int| 0 <= x < bundles.len());
    assert(s.subset_of(full));
    vstd::set_lib::lemma_int_range(0, bundles.len() as int);
    assert(full =~= vstd::set_lib::set_int_range(0, bundles.len() as int));
    assert(idx.no_duplicates()) by {
        assert forall|i: int, j: int| 0 <= i < idx.len() && 0 <= j < idx.len() && i != j
            implies idx[i] != idx[j] by {
            if i < j {
                assert(bundles[i].0 != bundles[j].0);
            } else {
                assert(bundles[j].0 != bundles[i].0);
            }
        }
    }
    idx.unique_seq_to_set();
    vstd::set_lib::lemma_subset_equality(s, full);
    assert(full.contains(k));
    assert(s.contains(k));
}

/// Hand out the items of bundles that arrive in any order, in the order of
/// their indices: with indices `0..n`, each once, the `k`-th item out is the
/// one with index `k`, and all `n` come out.
pub fn reorder<T>(bundles: Vec<(usize, T)>) -> (r: Vec<T>)
    requires
        is_index_permutation(bundles@),
        bundles@.len() < usize::MAX,
    ensures
        r@.len() == bundles@.len(),
        forall|k: int| 0 <= k < r@.len() ==> r@[k] == item_with_index(bundles@, k),
{
    let ghost orig = bundles@;
    let n = bundles.len();
    let mut rest = bundles;
    let mut buffer: ReorderBuffer<T> = ReorderBuffer::new();
    let mut out: Vec<T> = Vec::new();
    let mut j: usize = 0;
    while j < n
        invariant
            n == orig.len(),
            n < usize::MAX,
            is_index_permutation(orig),
            0 <= j <= n,
            rest@ == orig.subrange(j as int, n as int),
            buffer.wf(),
            out@.len() == buffer.next_index(),
            buffer.next_index() <= n,
            forall|k: int| 0 <= k < out@.len() ==> out@[k] == item_with_index(orig, k),
            forall|x: nat| #[trigger] buffer.waiting().contains_key(x) ==> {
                &&& buffer.next_index() <= x < n
                &&& exists|i: int| 0 <= i < j && orig[i].0 == x
                &&& buffer.waiting()[x] == item_with_index(orig, x as int)
            },
            forall|i: int| 0 <= i < j && orig[i].0 >= buffer.next_index()
                ==> buffer.waiting().contains_key(#[trigger] orig[i].0 as nat),
            !buffer.waiting().contains_key(buffer.next_index()),
            forall|k: nat| k < buffer.next_index() ==> #[trigger] arrived(orig, j as int, k as int),
        decreases n - j,
    {
        let (index, item) = rest.remove(0);
        assert(orig[j as int] == (index, item));
        proof {
            assert(item_with_index(orig, index as int) == item) by {
                let i = choose|i: int| 0 <= i < orig.len() && orig[i].0 == index as int;
                assert(orig[j as int].0 == index);
                if i != j {
                    if i < j {
                        assert(orig[i].0 != orig[j as int].0);
                    } else {
                        assert(orig[j as int].0 != orig[i].0);
                    }
                }
            }
            // Indices handed out or waiting all came with earlier bundles,
            // and no earlier bundle has this index.
            assert forall|i: int| 0 <= i < j implies orig[i].0 != index by {
                assert(orig[i].0 != orig[j as int].0);
            }
            if buffer.waiting().contains_key(index as nat) {
                assert(exists|i: int| 0 <= i < j && orig[i].0 == index);
            }
            if index < buffer.next_index() {
                assert(arrived(orig, j as int, index as int));
            }
            assert forall|k: nat| k < buffer.next_index() implies #[trigger] arrived(orig, j + 1, k as int) by {
                assert(arrived(orig, j as int, k as int));
            }
        }
        buffer.push(index, item);
        loop
            invariant
                n == orig.len(),
                buffer.wf(),
                out@.len() == buffer.next_index(),
                buffer.next_index() <= n,
                forall|k: int| 0 <= k < out@.len() ==> out@[k] == item_with_index(orig, k),
                forall|x: nat| #[trigger] buffer.waiting().contains_key(x) ==> {
                    &&& buffer.next_index() <= x < n
                    &&& exists|i: int| 0 <= i < j + 1 && orig[i].0 == x
                    &&& buffer.waiting()[x] == item_with_index(orig, x as int)
                },
                forall|i: int| 0 <= i < j + 1 && orig[i].0 >= buffer.next_index()
                    ==> buffer.waiting().contains_key(#[trigger] orig[i].0 as nat),
                forall|k: nat| k < buffer.next_index() ==> #[trigger] arrived(orig, j + 1, k as int),
            ensures
                !buffer.waiting().contains_key(buffer.next_index()),
            decreases n - buffer.next_index(),
        {
            match buffer.pop() {
                Some(x) => {
                    out.push(x);
                },
                None => {
                    break;
                },
            }
        }
        j = j + 1;
    }
    proof {
        if buffer.next_index() < n {
            lemma_permutation_covers(orig, buffer.next_index() as int);
        }
    }
    out
}

} // verus!
