use vstd::prelude::*;
use crate::realignment::{insertion_emission, EmissionWindow, HaplotypeEdit, min, saturating_sub};
use crate::sample::ReadSpan;

verus! {

/// A half-open interval `[start, end)` on a contig.
#[derive(Clone, Debug)]
pub struct SingleLocus {
    pub contig: String,
    pub start: u64,
    pub end: u64,
}

impl SingleLocus {
    /// Whether a read, with its soft clips, shares a position with the locus.
    pub fn is_overlapped_by(&self, read: &ReadSpan) -> (r: bool)
        requires
            read.wf(),
        ensures
            r == (read.first(true) < self.end && read.last(true) > self.start),
    {
        let first = read.pos.saturating_sub(read.leading_softclips);
        let last = read.end_pos + read.trailing_softclips;
        first < self.end && last > self.start
    }
}

/// The evidence of one read, or of both reads of a fragment.
#[derive(Clone, Copy, Debug)]
pub enum PairedEndEvidence {
    SingleEnd(ReadSpan),
    PairedEnd { left: ReadSpan, right: ReadSpan },
}

impl PairedEndEvidence {
    pub open spec fn wf(&self) -> bool {
        match *self {
            PairedEndEvidence::SingleEnd(r) => r.wf(),
            PairedEndEvidence::PairedEnd { left, right } => left.wf() && right.wf(),
        }
    }
}

/// An insertion of `ins_seq` after the anchor base at a position.
#[derive(Clone, Debug)]
pub struct Insertion {
    locus: SingleLocus,
    ins_seq: Vec<u8>,
}

impl Insertion {
    pub closed spec fn spec_locus(&self) -> SingleLocus {
        self.locus
    }

    pub closed spec fn spec_ins_seq(&self) -> Seq<u8> {
        self.ins_seq@
    }

    /// An insertion of `ins_seq` after position `pos` of `contig`.
    pub fn new(contig: String, pos: u64, ins_seq: Vec<u8>) -> (r: Insertion)
        requires
            pos < u64::MAX,
        ensures
            r.spec_locus().contig@ == contig@,
            r.spec_locus().start == pos,
            r.spec_locus().end == pos + 1,
            r.spec_ins_seq() == ins_seq@,
    {
        Insertion { locus: SingleLocus { contig, start: pos, end: pos + 1 }, ins_seq }
    }

    /// The locus of the insertion: its anchor base.
    pub fn locus(&self) -> (r: &SingleLocus)
        ensures
            *r == self.spec_locus(),
    {
        &self.locus
    }

    /// Number of inserted bases.
    pub fn len(&self) -> (r: u64)
        ensures
            r == self.spec_ins_seq().len(),
    {
        self.ins_seq.len() as u64
    }

    /// Evidence is used when any of its reads overlaps the insertion locus;
    /// it then concerns the locus with index 0.
    pub fn is_valid_evidence(&self, evidence: &PairedEndEvidence) -> (r: Option<Vec<usize>>)
        requires
            evidence.wf(),
        ensures
            r matches Some(ids) ==> ids@ == seq![0usize],
            r is Some == match *evidence {
                PairedEndEvidence::SingleEnd(read) =>
                    read.first(true) < self.spec_locus().end && read.last(true) > self.spec_locus().start,
                PairedEndEvidence::PairedEnd { left, right } =>
                    (left.first(true) < self.spec_locus().end && left.last(true) > self.spec_locus().start)
                    || (right.first(true) < self.spec_locus().end && right.last(true) > self.spec_locus().start),
            },
    {
        let valid = match evidence {
            PairedEndEvidence::SingleEnd(read) => self.locus.is_overlapped_by(read),
            PairedEndEvidence::PairedEnd { left, right } =>
                self.locus.is_overlapped_by(left) || self.locus.is_overlapped_by(right),
        };
        if valid {
            Some(vec![0usize])
        } else {
            None
        }
    }

    /// The window on the insertion haplotype that reads are realigned
    /// against, reaching `ref_window` bases to both sides.
    pub fn alt_emission_params<'a>(&'a self, ref_seq: &'a [u8], ref_window: usize) -> (r: EmissionWindow<'a>)
        requires
            self.spec_locus().start < ref_seq@.len(),
            ref_seq@.len() + self.spec_ins_seq().len() + ref_window <= usize::MAX,
        ensures
            r.wf(),
            r.ref_seq@ == ref_seq@,
            r.edit matches HaplotypeEdit::Insertion { start, seq }
                && start == self.spec_locus().start && seq@ == self.spec_ins_seq(),
            r.offset == saturating_sub(self.spec_locus().start as int, ref_window as int),
            r.offset + r.len == min(
                self.spec_locus().start + self.spec_ins_seq().len() + ref_window,
                ref_seq@.len() as int,
            ) + self.spec_ins_seq().len(),
    {
        insertion_emission(ref_seq, self.locus.start as usize, self.ins_seq.as_slice(), ref_window)
    }
}

} // verus!
