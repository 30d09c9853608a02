use vstd::prelude::*;
use crate::variants::Variant;

verus! {

/// The alternative haplotype of a deletion of `len` bases after the anchor
/// base at `start`.
pub open spec fn deletion_haplotype(reference: Seq<u8>, start: int, len: int) -> Seq<u8> {
    reference.subrange(0, start + 1) + reference.subrange(start + 1 + len, reference.len() as int)
}

/// The alternative haplotype of `inserted` bases after the anchor base at `start`.
pub open spec fn insertion_haplotype(reference: Seq<u8>, start: int, inserted: Seq<u8>) -> Seq<u8> {
    reference.subrange(0, start + 1) + inserted + reference.subrange(start + 1, reference.len() as int)
}

/// How the haplotype emitted by a window differs from the reference.
#[derive(Clone, Copy, Debug)]
pub enum HaplotypeEdit<'a> {
    /// The reference itself.
    Unchanged,
    /// `len` bases after the anchor at `start` are deleted.
    Deletion { start: usize, len: usize },
    /// `seq` is inserted after the anchor at `start`.
    Insertion { start: usize, seq: &'a [u8] },
}

/// A window of a haplotype (the reference, or the reference with a variant
/// applied) that the pair HMM aligns a read window against.
#[derive(Clone, Copy, Debug)]
pub struct EmissionWindow<'a> {
    pub ref_seq: &'a [u8],
    pub edit: HaplotypeEdit<'a>,
    /// First haplotype position of the window.
    pub offset: usize,
    /// Number of haplotype positions in the window.
    pub len: usize,
}

impl<'a> EmissionWindow<'a> {
    pub open spec fn haplotype(&self) -> Seq<u8> {
        match self.edit {
            HaplotypeEdit::Unchanged => self.ref_seq@,
            HaplotypeEdit::Deletion { start, len } =>
                deletion_haplotype(self.ref_seq@, start as int, len as int),
            HaplotypeEdit::Insertion { start, seq } =>
                insertion_haplotype(self.ref_seq@, start as int, seq@),
        }
    }

    pub open spec fn wf(&self) -> bool {
        &&& match self.edit {
            HaplotypeEdit::Unchanged => true,
            HaplotypeEdit::Deletion { start, len } => start + 1 + len <= self.ref_seq@.len(),
            HaplotypeEdit::Insertion { start, seq } =>
                start < self.ref_seq@.len() && self.ref_seq@.len() + seq@.len() <= usize::MAX,
        }
        &&& (self.len == 0 || self.offset + self.len <= self.haplotype().len())
    }

    /// The `i`-th base of the window.
    pub fn ref_base(&self, i: usize) -> (r: u8)
        requires
            self.wf(),
            i < self.len,
        ensures
            r == self.haplotype()[self.offset + i],
    {
        let n = self.ref_seq.len();
        proof {
            match self.edit {
                HaplotypeEdit::Unchanged => {},
                HaplotypeEdit::Deletion { start, len } => {
                    assert(self.haplotype().len() == self.ref_seq@.len() - len);
                },
                HaplotypeEdit::Insertion { start, seq } => {
                    assert(self.haplotype().len() == self.ref_seq@.len() + seq@.len());
                },
            }
        }
        let p = i + self.offset;
        match self.edit {
            HaplotypeEdit::Unchanged => self.ref_seq[p],
            HaplotypeEdit::Deletion { start, len } => {
                if p <= start {
                    self.ref_seq[p]
                } else {
                    self.ref_seq[p + len]
                }
            },
            HaplotypeEdit::Insertion { start, seq } => {
                if p <= start {
                    self.ref_seq[p]
                } else if p > start + seq.len() {
                    self.ref_seq[p - seq.len()]
                } else {
                    seq[p - (start + 1)]
                }
            },
        }
    }

    /// Number of bases in the window.
    pub fn len_x(&self) -> (r: usize)
        ensures
            r == self.len,
    {
        self.len
    }
}

pub open spec fn min(a: int, b: int) -> int {
    if a < b { a } else { b }
}

pub open spec fn saturating_sub(a: int, b: int) -> int {
    if a > b { a - b } else { 0 }
}

/// The reference window around `breakpoint`, `ref_window` bases to each side.
pub fn reference_emission<'a>(ref_seq: &'a [u8], breakpoint: usize, ref_window: usize) -> (r: EmissionWindow<'a>)
    requires
        breakpoint + ref_window <= usize::MAX,
    ensures
        r.wf(),
        r.ref_seq@ == ref_seq@,
        r.edit == HaplotypeEdit::Unchanged,
        r.offset == saturating_sub(breakpoint as int, ref_window as int),
        r.offset + r.len == min(breakpoint + ref_window, ref_seq@.len() as int)
            || (r.len == 0 && r.offset >= ref_seq@.len()),
{
    let offset = breakpoint.saturating_sub(ref_window);
    let end = if breakpoint + ref_window < ref_seq.len() { breakpoint + ref_window } else { ref_seq.len() };
    let len = if end > offset { end - offset } else { 0 };
    EmissionWindow { ref_seq, edit: HaplotypeEdit::Unchanged, offset, len }
}

/// The window on the deletion haplotype around `start`. The window never
/// reaches past the end of the haplotype.
pub fn deletion_emission<'a>(ref_seq: &'a [u8], start: usize, del_len: usize, ref_window: usize) -> (r: EmissionWindow<'a>)
    requires
        start + 1 + del_len <= ref_seq@.len(),
        start + ref_window <= usize::MAX,
    ensures
        r.wf(),
        r.ref_seq@ == ref_seq@,
        r.edit == (HaplotypeEdit::Deletion { start, len: del_len }),
        r.offset == saturating_sub(start as int, ref_window as int),
        r.offset + r.len == min(
            min(start + ref_window, ref_seq@.len() as int),
            ref_seq@.len() - del_len,
        ),
{
    let offset = start.saturating_sub(ref_window);
    let hap_len = ref_seq.len() - del_len;
    let mut end = if start + ref_window < ref_seq.len() { start + ref_window } else { ref_seq.len() };
    if end > hap_len {
        end = hap_len;
    }
    let r = EmissionWindow { ref_seq, edit: HaplotypeEdit::Deletion { start, len: del_len }, offset, len: end - offset };
    assert(r.haplotype().len() == ref_seq@.len() - del_len);
    r
}

/// The window on the insertion haplotype: from `ref_window` bases before
/// `start` to `ref_window` bases after the inserted sequence, plus the
/// inserted bases once more, as the pair HMM expects.
pub fn insertion_emission<'a>(ref_seq: &'a [u8], start: usize, ins_seq: &'a [u8], ref_window: usize) -> (r: EmissionWindow<'a>)
    requires
        start < ref_seq@.len(),
        start + ins_seq@.len() + ref_window <= usize::MAX,
        ref_seq@.len() + ins_seq@.len() <= usize::MAX,
    ensures
        r.wf(),
        r.ref_seq@ == ref_seq@,
        r.edit == (HaplotypeEdit::Insertion { start, seq: ins_seq }),
        r.offset == saturating_sub(start as int, ref_window as int),
        r.offset + r.len == min(start + ins_seq@.len() + ref_window, ref_seq@.len() as int)
            + ins_seq@.len(),
{
    let l = ins_seq.len();
    let offset = start.saturating_sub(ref_window);
    let end = if start + l + ref_window < ref_seq.len() { start + l + ref_window } else { ref_seq.len() };
    let r = EmissionWindow { ref_seq, edit: HaplotypeEdit::Insertion { start, seq: ins_seq }, offset, len: end - offset + l };
    assert(r.haplotype().len() == ref_seq@.len() + ins_seq@.len());
    r
}

/// The part of a read that is realigned, and the reference position that
/// the realignment is centred on.
#[derive(Clone, Copy, Debug, PartialEq, Eq, Structural)]
pub struct ReadWindow {
    pub read_offset: usize,
    pub read_end: usize,
    pub breakpoint: usize,
    /// Whether the read maps into the variant at all.
    pub overlap: bool,
}

impl ReadWindow {
    /// Index in the read of the `j`-th base of the window.
    pub fn project_j(&self, j: usize) -> (r: usize)
        requires
            self.read_offset + j <= usize::MAX,
        ensures
            r == self.read_offset + j,
    {
        j + self.read_offset
    }

    /// Number of read bases in the window.
    pub fn len_y(&self) -> (r: usize)
        ensures
            r == saturating_sub(self.read_end as int, self.read_offset as int),
    {
        self.read_end.saturating_sub(self.read_offset)
    }
}

/// The read window: from `window` bases before the first mapped boundary
/// of the variant to `window` bases after the last one, within the read, and
/// the reference position that realignment is centred on.
pub open spec fn read_window_spec(
    varstart: int,
    varend: int,
    qstart: Option<usize>,
    qend: Option<usize>,
    read_len: int,
    read_pos: int,
    window: int,
) -> ReadWindow {
    let (first, last, breakpoint, overlap) = match (qstart, qend) {
        (Some(qs), Some(qe)) => (qs as int, qe as int, varstart, true),
        (Some(qs), None) => (qs as int, qs as int, varstart, true),
        (None, Some(qe)) => (qe as int, qe as int, varend, true),
        (None, None) => (read_len / 2, read_len / 2, read_pos + read_len / 2, false),
    };
    ReadWindow {
        read_offset: saturating_sub(first, window) as usize,
        read_end: min(last + window, read_len) as usize,
        breakpoint: breakpoint as usize,
        overlap,
    }
}

fn upper_bound(q: usize, window: usize, read_len: usize) -> (r: usize)
    ensures
        r == min(q + window, read_len as int),
{
    if q >= read_len || window >= read_len - q {
        read_len
    } else {
        q + window
    }
}

/// Select the read window to realign. `qstart` and `qend` are the read
/// positions that the variant's boundaries `varstart` and `varend` map to, if
/// any. The window reaches `window` bases beyond the mapped boundaries; when
/// only one boundary maps, it is centred on that one; when neither maps, on
/// the middle of the read, at the reference position the read's middle would
/// have, and the read does not overlap the variant.
pub fn read_window(
    varstart: usize,
    varend: usize,
    qstart: Option<usize>,
    qend: Option<usize>,
    read_len: usize,
    read_pos: usize,
    window: usize,
) -> (r: ReadWindow)
    requires
        read_pos + read_len / 2 <= usize::MAX,
    ensures
        r == read_window_spec(
            varstart as int,
            varend as int,
            qstart,
            qend,
            read_len as int,
            read_pos as int,
            window as int,
        ),
{
    match (qstart, qend) {
        (Some(qs), Some(qe)) => ReadWindow {
            read_offset: qs.saturating_sub(window),
            read_end: upper_bound(qe, window, read_len),
            breakpoint: varstart,
            overlap: true,
        },
        (Some(qs), None) => ReadWindow {
            read_offset: qs.saturating_sub(window),
            read_end: upper_bound(qs, window, read_len),
            breakpoint: varstart,
            overlap: true,
        },
        (None, Some(qe)) => ReadWindow {
            read_offset: qe.saturating_sub(window),
            read_end: upper_bound(qe, window, read_len),
            breakpoint: varend,
            overlap: true,
        },
        (None, None) => {
            let m = read_len / 2;
            ReadWindow {
                read_offset: m.saturating_sub(window),
                read_end: upper_bound(m, window, read_len),
                breakpoint: read_pos + m,
                overlap: false,
            }
        },
    }
}

/// Reference positions of the boundaries of an indel at `start`: a deletion
/// spans its deleted bases, an insertion the gap after the anchor base.
pub fn indel_boundaries(start: usize, variant: &Variant) -> (r: (usize, usize))
    requires
        variant is Deletion || variant is Insertion,
        start + variant.spec_len() <= usize::MAX,
        start < usize::MAX,
    ensures
        r == (start, (if variant is Deletion { start + variant.spec_len() } else { start + 1 }) as usize),
{
    match variant {
        Variant::Deletion(l) => (start, start + *l as usize),
        _ => (start, start + 1),
    }
}

/// The reference window is half as wide again as the read window, so that
/// close indels can still be aligned, but not so wide that the read aligns
/// away from the breakpoint.
pub open spec fn ref_window_of(window: int) -> int {
    window + window / 2
}

/// The windows that a read is realigned against for an indel at `start`:
/// the read window, the reference window and, when the read overlaps the
/// variant, the window on the variant haplotype. Without overlap the
/// reference window serves for both alleles.
pub fn indel_emissions<'a>(
    ref_seq: &'a [u8],
    start: usize,
    variant: &'a Variant,
    qstart: Option<usize>,
    qend: Option<usize>,
    read_len: usize,
    read_pos: usize,
    window: usize,
) -> (r: (ReadWindow, EmissionWindow<'a>, Option<EmissionWindow<'a>>))
    requires
        variant is Deletion || variant is Insertion,
        start + 1 + variant.spec_len() <= ref_seq@.len(),
        ref_seq@.len() + variant.spec_len() + 2 * window <= usize::MAX,
        read_pos + read_len / 2 + 2 * window <= usize::MAX,
    ensures
        r.0 == read_window_spec(
            start as int,
            (if variant is Deletion { start + variant.spec_len() } else { start + 1 }),
            qstart,
            qend,
            read_len as int,
            read_pos as int,
            window as int,
        ),
        r.1.wf(),
        r.1.ref_seq@ == ref_seq@,
        r.1.edit == HaplotypeEdit::Unchanged,
        r.1.offset == saturating_sub(r.0.breakpoint as int, ref_window_of(window as int)),
        r.1.offset + r.1.len == min(r.0.breakpoint + ref_window_of(window as int), ref_seq@.len() as int)
            || (r.1.len == 0 && r.1.offset >= ref_seq@.len()),
        r.0.overlap <==> r.2 is Some,
        r.2 matches Some(alt) ==> {
            &&& alt.wf()
            &&& alt.ref_seq@ == ref_seq@
            &&& alt.offset == saturating_sub(start as int, ref_window_of(window as int))
            &&& match *variant {
                Variant::Deletion(l) => {
                    &&& alt.edit == (HaplotypeEdit::Deletion { start: start, len: l as usize })
                    &&& alt.offset + alt.len == min(
                        min(start + ref_window_of(window as int), ref_seq@.len() as int),
                        ref_seq@.len() - l,
                    )
                },
                Variant::Insertion(seq) => {
                    &&& alt.edit matches HaplotypeEdit::Insertion { start: s, seq: ins } && s == start && ins@ == seq@
                    &&& alt.offset + alt.len == min(start + seq@.len() + ref_window_of(window as int), ref_seq@.len() as int)
                        + seq@.len()
                },
                _ => false,
            }
        },
{
    let (varstart, varend) = indel_boundaries(start, variant);
    let w = read_window(varstart, varend, qstart, qend, read_len, read_pos, window);
    let ref_window = window + window / 2;
    let reference = reference_emission(ref_seq, w.breakpoint, ref_window);
    let alt = if w.overlap {
        match variant {
            Variant::Deletion(l) => Some(deletion_emission(ref_seq, start, *l as usize, ref_window)),
            Variant::Insertion(seq) => Some(insertion_emission(ref_seq, start, seq.as_slice(), ref_window)),
            _ => None,
        }
    } else {
        None
    };
    (w, reference, alt)
}

} // verus!
