use vstd::prelude::*;

verus! {

/// The flags of an alignment that decide whether it is buffered.
#[derive(Clone, Copy, Debug)]
pub struct RecordFlags {
    pub is_duplicate: bool,
    pub is_unmapped: bool,
    pub is_secondary: bool,
}

/// How to bring the buffer to a new interval.
#[derive(Clone, Copy, Debug, PartialEq, Eq, Structural)]
pub enum FillStart {
    /// The buffer was cleared; read from this position of the contig on.
    Fetch(u64),
    /// The buffer was trimmed on the left; go on reading where it ends.
    Extend,
}

/// First position that the buffer must hold for an interval at `start`:
/// `window` bases (and one more) to its left.
pub open spec fn window_start_spec(start: int, window: int) -> int {
    if start - window - 1 > 0 { start - window - 1 } else { 0 }
}

/// Alignments around the current interval, kept as they were read so that no
/// record is read twice while walking along a contig. `R` is the record type.
pub struct RecordBuffer<R> {
    /// Contig, position and the record itself.
    inner: Vec<(u64, u64, R)>,
    window: u64,
    use_secondary: bool,
}

impl<R> RecordBuffer<R> {
    pub closed spec fn spec_window(&self) -> u64 {
        self.window
    }

    pub closed spec fn spec_use_secondary(&self) -> bool {
        self.use_secondary
    }

    /// Contig and position of the buffered records, in order.
    pub closed spec fn loci(&self) -> Seq<(u64, u64)> {
        self.inner@.map_values(|e: (u64, u64, R)| (e.0, e.1))
    }

    pub closed spec fn records(&self) -> Seq<R> {
        self.inner@.map_values(|e: (u64, u64, R)| e.2)
    }

    pub fn new(window: u64, use_secondary: bool) -> (r: RecordBuffer<R>)
        ensures
            r.loci().len() == 0,
            r.spec_window() == window,
            r.spec_use_secondary() == use_secondary,
    {
        RecordBuffer { inner: Vec::new(), window, use_secondary }
    }

    /// Make room for an interval at `start` on contig `tid`. When the buffer
    /// is empty, on another contig, or ends before the window start, it is
    /// cleared and reading starts over at the window start. Otherwise the
    /// records left of the window start are dropped.
    pub fn prepare(&mut self, tid: u64, start: u64) -> (r: FillStart)
        ensures
            final(self).spec_window() == old(self).spec_window(),
            final(self).spec_use_secondary() == old(self).spec_use_secondary(),
            ({
                let ws = window_start_spec(start as int, old(self).spec_window() as int);
                let loci = old(self).loci();
                if loci.len() == 0 || loci.last().1 < ws || loci.last().0 != tid {
                    &&& r == FillStart::Fetch(ws as u64)
                    &&& final(self).loci().len() == 0
                } else {
                    exists|k: int| 0 <= k <= loci.len() && {
                        &&& r == FillStart::Extend
                        &&& (forall|i: int| 0 <= i < k ==> (#[trigger] loci[i]).1 < ws)
                        &&& (k < loci.len() ==> loci[k].1 >= ws)
                        &&& final(self).loci() == loci.subrange(k, loci.len() as int)
                        &&& final(self).records() == old(self).records().subrange(k, loci.len() as int)
                    }
                }
            }),
    {
        let ghost loci = self.loci();
        let ws = if start > self.window && start - self.window > 1 { start - self.window - 1 } else { 0 };
        let n = self.inner.len();
        if n == 0 || self.inner[n - 1].1 < ws || self.inner[n - 1].0 != tid {
            self.inner = Vec::new();
            assert(self.loci() =~= Seq::<(u64, u64)>::empty());
            return FillStart::Fetch(ws);
        }
        let ghost orig = self.inner@;
        let mut k: usize = 0;
        while k < n && self.inner[k].1 < ws
            invariant
                n == orig.len(),
                self.inner@ == orig,
                0 <= k <= n,
                forall|i: int| 0 <= i < k ==> (#[trigger] orig[i]).1 < ws,
            decreases n - k,
        {
            k = k + 1;
        }
        let mut dropped: usize = 0;
        while dropped < k
            invariant
                0 <= dropped <= k <= n,
                n == orig.len(),
                self.inner@ == orig.subrange(dropped as int, n as int),
                self.window == old(self).window,
                self.use_secondary == old(self).use_secondary,
            decreases k - dropped,
        {
            self.inner.remove(0);
            dropped = dropped + 1;
        }
        assert(self.loci() =~= loci.subrange(k as int, loci.len() as int));
        assert(self.records() =~= old(self).records().subrange(k as int, loci.len() as int));
        assert(forall|i: int| 0 <= i < k ==> (#[trigger] loci[i]).1 < ws);
        FillStart::Extend
    }

    /// Whether a record read next is kept: duplicates and unmapped reads are
    /// not, nor secondary alignments unless they are to be used.
    pub fn keeps(&self, flags: &RecordFlags) -> (r: bool)
        ensures
            r == (!flags.is_duplicate && !flags.is_unmapped && (self.spec_use_secondary() || !flags.is_secondary)),
    {
        !flags.is_duplicate && !flags.is_unmapped && (self.use_secondary || !flags.is_secondary)
    }

    /// Offer the next record read for an interval ending at `end`: it is
    /// buffered when kept. The answer says whether to read on: reading stops
    /// after the first kept record more than `window` bases right of `end`.
    pub fn offer(&mut self, tid: u64, pos: u64, flags: &RecordFlags, record: R, end: u64) -> (r: bool)
        ensures
            final(self).spec_window() == old(self).spec_window(),
            final(self).spec_use_secondary() == old(self).spec_use_secondary(),
            ({
                let kept = !flags.is_duplicate && !flags.is_unmapped && (old(self).spec_use_secondary() || !flags.is_secondary);
                &&& kept ==> final(self).loci() == old(self).loci().push((tid, pos))
                &&& kept ==> final(self).records() == old(self).records().push(record)
                &&& !kept ==> final(self).loci() == old(self).loci()
                &&& !kept ==> final(self).records() == old(self).records()
                &&& r == (!kept || pos as int <= end + old(self).spec_window())
            }),
    {
        if !self.keeps(flags) {
            return true;
        }
        let ghost old_inner = self.inner@;
        self.inner.push((tid, pos, record));
        assert(self.loci() =~= old(self).loci().push((tid, pos)));
        assert(self.records() =~= old(self).records().push(record));
        !(pos > end && pos - end > self.window)
    }

    /// The buffered records with their contigs and positions, in order.
    pub fn iter(&self) -> (r: &Vec<(u64, u64, R)>)
        ensures
            r@.map_values(|e: (u64, u64, R)| (e.0, e.1)) == self.loci(),
            r@.map_values(|e: (u64, u64, R)| e.2) == self.records(),
    {
        &self.inner
    }
}

} // verus!
