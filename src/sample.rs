use vstd::prelude::*;
use crate::variants::Variant;

verus! {

/// Describes whether a read overlaps a variant in a valid or invalid (too
/// large overlap) way, with the number of overlapping bases.
#[derive(Clone, Copy, Debug, PartialEq, Eq, Structural)]
pub enum Overlap {
    Enclosing(u64),
    Left(u64),
    Right(u64),
    Disjoint,
}

impl Overlap {
    pub fn is_enclosing(&self) -> (r: bool)
        ensures
            r == (*self is Enclosing),
    {
        if let Overlap::Enclosing(_) = self {
            true
        } else {
            false
        }
    }

    /// Whether the read does not overlap the variant at all.
    pub fn is_none(&self) -> (r: bool)
        ensures
            r == (*self is Disjoint),
    {
        if let Overlap::Disjoint = self {
            true
        } else {
            false
        }
    }
}

/// Where an alignment lies on the reference: its first and past-the-end
/// aligned positions, and the soft clipped bases at both ends.
#[derive(Clone, Copy, Debug)]
pub struct ReadSpan {
    pub pos: u64,
    pub end_pos: u64,
    pub leading_softclips: u64,
    pub trailing_softclips: u64,
}

impl ReadSpan {
    pub open spec fn wf(&self) -> bool {
        self.pos <= self.end_pos && self.end_pos + self.trailing_softclips <= u64::MAX
    }

    /// First position, extended by the leading soft clips when asked to.
    pub open spec fn first(&self, consider_clips: bool) -> int {
        if consider_clips {
            if self.pos >= self.leading_softclips {
                self.pos - self.leading_softclips
            } else {
                0
            }
        } else {
            self.pos as int
        }
    }

    /// Past-the-end position, extended by the trailing soft clips when asked to.
    pub open spec fn last(&self, consider_clips: bool) -> int {
        if consider_clips {
            self.end_pos + self.trailing_softclips
        } else {
            self.end_pos as int
        }
    }
}

/// Overlap of an alignment spanning `[pos, end_pos)` with a variant at `start`.
pub open spec fn overlap_spec(pos: int, end_pos: int, start: int, variant: Variant) -> Overlap {
    match variant {
        Variant::Deletion(l) => {
            let end = start + l;
            if pos < start && end_pos > end {
                Overlap::Enclosing(l)
            } else if end_pos <= end && end_pos > start {
                Overlap::Right((end_pos - start) as u64)
            } else if pos >= start && pos < end {
                Overlap::Left((end - pos) as u64)
            } else {
                Overlap::Disjoint
            }
        },
        Variant::Insertion(seq) => {
            let l = seq@.len() as int;
            let center = (end_pos - pos) / 2 + pos;
            if pos < start && end_pos > start {
                if start > center {
                    if end_pos - start > l {
                        Overlap::Enclosing(l as u64)
                    } else {
                        Overlap::Right((end_pos - start) as u64)
                    }
                } else {
                    if start - pos > l {
                        Overlap::Enclosing(l as u64)
                    } else {
                        Overlap::Left((start - pos) as u64)
                    }
                }
            } else {
                Overlap::Disjoint
            }
        },
        _ => {
            if pos <= start && end_pos >= start + variant.spec_len() {
                Overlap::Enclosing(variant.spec_len() as u64)
            } else {
                Overlap::Disjoint
            }
        },
    }
}

/// Calculate the overlap of a read with a variant at `start`. With
/// `consider_clips`, soft clipped bases count as part of the read.
///
/// A deletion is enclosed when the read starts before and ends after it;
/// otherwise the read overlaps it from the right or the left. An insertion
/// counts as enclosed when the read reaches more than the insertion length
/// beyond it on the side of the read centre. Other variants are enclosed when
/// all their bases are covered.
pub fn overlap(read: &ReadSpan, start: u64, variant: &Variant, consider_clips: bool) -> (r: Overlap)
    requires
        read.wf(),
        start + variant.spec_len() <= u64::MAX,
    ensures
        r == overlap_spec(
            read.first(consider_clips),
            read.last(consider_clips),
            start as int,
            *variant,
        ),
{
    let mut pos = read.pos;
    let mut end_pos = read.end_pos;
    if consider_clips {
        pos = pos.saturating_sub(read.leading_softclips);
        end_pos = end_pos + read.trailing_softclips;
    }
    match variant {
        Variant::Deletion(l) => {
            let end = start + *l;
            if pos < start && end_pos > end {
                Overlap::Enclosing(*l)
            } else if end_pos <= end && end_pos > start {
                Overlap::Right(end_pos - start)
            } else if pos >= start && pos < end {
                Overlap::Left(end - pos)
            } else {
                Overlap::Disjoint
            }
        },
        Variant::Insertion(seq) => {
            let l = seq.len() as u64;
            let center = (end_pos - pos) / 2 + pos;
            if pos < start && end_pos > start {
                if start > center {
                    let o = end_pos - start;
                    if o > l {
                        Overlap::Enclosing(l)
                    } else {
                        Overlap::Right(o)
                    }
                } else {
                    let o = start - pos;
                    if o > l {
                        Overlap::Enclosing(l)
                    } else {
                        Overlap::Left(o)
                    }
                }
            } else {
                Overlap::Disjoint
            }
        },
        _ => {
            let l = variant.len();
            if pos <= start && end_pos >= start + l {
                Overlap::Enclosing(l)
            } else {
                Overlap::Disjoint
            }
        },
    }
}

/// Whether an overlap is acceptable for a single read observation: at most
/// `max_indel_overlap` bases of the read may lie in the indel.
pub fn is_valid_read_indel_overlap(overlap: &Overlap, max_indel_overlap: u64) -> (r: bool)
    ensures
        r == match *overlap {
            Overlap::Enclosing(o) | Overlap::Left(o) | Overlap::Right(o) => o <= max_indel_overlap,
            Overlap::Disjoint => true,
        },
{
    match overlap {
        Overlap::Enclosing(o) => *o <= max_indel_overlap,
        Overlap::Right(o) => *o <= max_indel_overlap,
        Overlap::Left(o) => *o <= max_indel_overlap,
        Overlap::Disjoint => true,
    }
}

/// Whether an overlap is acceptable for a fragment observation. Only overlaps
/// towards the fragment centre are allowed: a left read may not overlap from
/// the left, a right read not from the right.
pub fn is_valid_fragment_indel_overlap(
    overlap: &Overlap,
    left_record: bool,
    max_indel_overlap: u64,
) -> (r: bool)
    ensures
        r == match *overlap {
            Overlap::Enclosing(o) => o <= max_indel_overlap,
            Overlap::Right(o) => left_record && o <= max_indel_overlap,
            Overlap::Left(o) => !left_record && o <= max_indel_overlap,
            Overlap::Disjoint => true,
        },
{
    match (overlap, left_record) {
        (Overlap::Enclosing(o), _) => *o <= max_indel_overlap,
        (Overlap::Right(o), true) => *o <= max_indel_overlap,
        (Overlap::Left(o), false) => *o <= max_indel_overlap,
        (Overlap::Left(_), true) => false,
        (Overlap::Right(_), false) => false,
        (Overlap::Disjoint, _) => true,
    }
}

/// End and centerpoint of the reference stretch touched by a variant at
/// `start`: a deletion ends after its deleted bases and is centred on their
/// middle, an insertion ends at the next regular base and is centred on
/// `start`, other variants are treated as points at `start`.
pub fn variant_end_and_centerpoint(start: u64, variant: &Variant) -> (r: (u64, u64))
    requires
        start + variant.spec_len() <= u64::MAX,
        start < u64::MAX,
    ensures
        r == match *variant {
            Variant::Deletion(l) => ((start + l) as u64, (start + l / 2) as u64),
            Variant::Insertion(_) => ((start + 1) as u64, start),
            _ => (start, start),
        },
{
    match variant {
        Variant::Deletion(l) => (start + *l, start + *l / 2),
        Variant::Insertion(_) => (start + 1, start),
        _ => (start, start),
    }
}

/// Whether the mapping quality of a read can be trusted: the alignment score
/// (AS) must exceed the score of the best alternative hit (XS) when both are
/// given.
pub fn is_reliable_read(alignment_score: Option<i64>, suboptimal_score: Option<i64>) -> (r: bool)
    ensures
        r == match (alignment_score, suboptimal_score) {
            (Some(a), Some(x)) => a > x,
            _ => true,
        },
{
    match (alignment_score, suboptimal_score) {
        (Some(a), Some(x)) => a > x,
        _ => true,
    }
}

/// The flags of a read that decide how it contributes to an indel pileup.
#[derive(Clone, Copy, Debug)]
pub struct ReadFlags {
    pub is_supplementary: bool,
    pub is_mate_unmapped: bool,
    pub is_first_in_template: bool,
    pub is_last_in_template: bool,
}

/// What to do with a read while collecting indel observations.
#[derive(Clone, Copy, Debug, PartialEq, Eq, Structural)]
pub enum ReadAction {
    /// Ignore the read.
    Skip,
    /// Use the read on its own.
    Single,
    /// Keep the read as the left end of a fragment until its mate comes.
    AwaitMate,
    /// The read completes a fragment whose left mate was kept before.
    PairWithMate,
}

pub open spec fn indel_read_action_spec(
    flags: ReadFlags,
    pos: int,
    insert_size: int,
    centerpoint: int,
    mate_seen: bool,
    use_fragment_evidence: bool,
) -> ReadAction {
    if flags.is_supplementary {
        ReadAction::Skip
    } else if flags.is_mate_unmapped || !use_fragment_evidence {
        ReadAction::Single
    } else if flags.is_first_in_template || flags.is_last_in_template {
        if pos <= centerpoint && !mate_seen {
            if pos + insert_size >= centerpoint {
                ReadAction::AwaitMate
            } else {
                ReadAction::Skip
            }
        } else if mate_seen {
            ReadAction::PairWithMate
        } else {
            ReadAction::Skip
        }
    } else {
        ReadAction::Skip
    }
}

/// Decide how a read (sorted by position) enters an indel pileup. Reads are
/// sampled fairly by fragment: a fragment is used when it spans the
/// centerpoint, judged from its left read's position and absolute insert
/// size; `mate_seen` tells whether the read's mate was kept before.
pub fn indel_read_action(
    flags: &ReadFlags,
    pos: u64,
    insert_size: u64,
    centerpoint: u64,
    mate_seen: bool,
    use_fragment_evidence: bool,
) -> (r: ReadAction)
    ensures
        r == indel_read_action_spec(
            *flags,
            pos as int,
            insert_size as int,
            centerpoint as int,
            mate_seen,
            use_fragment_evidence,
        ),
{
    if flags.is_supplementary {
        ReadAction::Skip
    } else if flags.is_mate_unmapped || !use_fragment_evidence {
        ReadAction::Single
    } else if flags.is_first_in_template || flags.is_last_in_template {
        if pos <= centerpoint && !mate_seen {
            if insert_size >= centerpoint - pos {
                ReadAction::AwaitMate
            } else {
                ReadAction::Skip
            }
        } else if mate_seen {
            ReadAction::PairWithMate
        } else {
            ReadAction::Skip
        }
    } else {
        ReadAction::Skip
    }
}

} // verus!
