use vstd::prelude::*;
use vstd::string::StringSliceAdditionalSpecFns;
use crate::keyed::ByteKeyMap;
use crate::text::{all_digits, copy_range, decimal_value, find_byte, find_from, parse_decimal};

verus! {

/// Errors while setting up a testcase.
#[derive(Clone, Copy, Debug, PartialEq, Eq, Structural)]
pub enum TestcaseError {
    /// The locus is not of the form CHROM:POS or CHROM:POS:IDX.
    InvalidLocus,
    /// POS or IDX is zero or too large.
    InvalidNumber,
}

pub const COLON: u8 = 58;

/// A 1-based number of a locus, as a 0-based value below `bound`.
pub open spec fn one_based(s: Seq<u8>, bound: nat) -> Result<nat, TestcaseError> {
    if s.len() == 0 || !all_digits(s) {
        Err(TestcaseError::InvalidLocus)
    } else if decimal_value(s) == 0 || decimal_value(s) > bound {
        Err(TestcaseError::InvalidNumber)
    } else {
        Ok((decimal_value(s) - 1) as nat)
    }
}

/// The contig name, 0-based position and 0-based variant index of a locus
/// written `CHROM:POS` or `CHROM:POS:IDX` (1-based POS and IDX; IDX 1 when
/// it is left out). CHROM is nonempty and has no colon.
pub open spec fn locus_spec(s: Seq<u8>) -> Result<(Seq<u8>, u32, usize), TestcaseError> {
    match find_from(s, COLON, 0) {
        None => Err(TestcaseError::InvalidLocus),
        Some(c1) => if c1 == 0 {
            Err(TestcaseError::InvalidLocus)
        } else {
            let (pos_text, idx_text) = match find_from(s, COLON, c1 + 1) {
                None => (s.subrange(c1 + 1, s.len() as int), None::<Seq<u8>>),
                Some(c2) => (s.subrange(c1 + 1, c2), Some(s.subrange(c2 + 1, s.len() as int))),
            };
            match one_based(pos_text, u32::MAX as nat) {
                Err(e) => if idx_text matches Some(t) && (t.len() == 0 || !all_digits(t)) {
                    Err(TestcaseError::InvalidLocus)
                } else {
                    Err(e)
                },
                Ok(pos) => match idx_text {
                    None => Ok((s.subrange(0, c1), pos as u32, 0usize)),
                    Some(t) => match one_based(t, usize::MAX as nat) {
                        Err(e) => Err(e),
                        Ok(idx) => Ok((s.subrange(0, c1), pos as u32, idx as usize)),
                    },
                },
            }
        },
    }
}

fn read_one_based(s: &[u8], bound: u64) -> (r: Result<u64, TestcaseError>)
    ensures
        match one_based(s@, bound as nat) {
            Ok(v) => r == Ok::<u64, TestcaseError>(v as u64),
            Err(e) => r == Err::<u64, TestcaseError>(e),
        },
{
    match parse_decimal(s) {
        Some(v) => {
            if v == 0 || v > bound {
                Err(TestcaseError::InvalidNumber)
            } else {
                Ok(v - 1)
            }
        },
        None => {
            if s.len() == 0 {
                return Err(TestcaseError::InvalidLocus);
            }
            let mut i: usize = 0;
            while i < s.len()
                invariant
                    0 <= i <= s@.len(),
                    forall|k: int| 0 <= k < i ==> crate::text::is_digit(#[trigger] s@[k]),
                decreases s@.len() - i,
            {
                if s[i] < 48 || s[i] > 57 {
                    return Err(TestcaseError::InvalidLocus);
                }
                i = i + 1;
            }
            Err(TestcaseError::InvalidNumber)
        },
    }
}

/// Builds a testcase for one candidate variant: where it is and which
/// alignment files belong to it.
pub struct TestcaseBuilder {
    chrom_name: Option<Vec<u8>>,
    pos: Option<u32>,
    idx: Option<usize>,
    bams: ByteKeyMap<String>,
}

impl TestcaseBuilder {
    pub closed spec fn spec_chrom_name(&self) -> Option<Seq<u8>> {
        match self.chrom_name {
            Some(c) => Some(c@),
            None => None,
        }
    }

    pub closed spec fn spec_pos(&self) -> Option<u32> {
        self.pos
    }

    pub closed spec fn spec_idx(&self) -> Option<usize> {
        self.idx
    }

    /// The alignment files by sample name.
    pub closed spec fn spec_bams(&self) -> Map<Seq<u8>, String> {
        self.bams@
    }

    pub closed spec fn wf(&self) -> bool {
        self.bams.wf()
    }

    pub fn new() -> (r: TestcaseBuilder)
        ensures
            r.wf(),
            r.spec_chrom_name() is None,
            r.spec_pos() is None,
            r.spec_idx() is None,
            r.spec_bams() == Map::<Seq<u8>, String>::empty(),
    {
        TestcaseBuilder { chrom_name: None, pos: None, idx: None, bams: ByteKeyMap::new() }
    }

    /// The contig of the candidate.
    pub fn chrom_name(&self) -> (r: Option<&Vec<u8>>)
        ensures
            match self.spec_chrom_name() {
                Some(c) => r matches Some(v) && v@ == c,
                None => r is None,
            },
    {
        match &self.chrom_name {
            Some(c) => Some(c),
            None => None,
        }
    }

    /// The 0-based position of the candidate.
    pub fn pos(&self) -> (r: Option<u32>)
        ensures
            r == self.spec_pos(),
    {
        self.pos
    }

    /// The 0-based index of the candidate among the variants at its position.
    pub fn idx(&self) -> (r: Option<usize>)
        ensures
            r == self.spec_idx(),
    {
        self.idx
    }

    /// The alignment file registered for a sample.
    pub fn bam(&self, name: &str) -> (r: Option<&String>)
        requires
            self.wf(),
        ensures
            self.spec_bams().contains_key(name.spec_bytes()) ==> r == Some(&self.spec_bams()[name.spec_bytes()]),
            !self.spec_bams().contains_key(name.spec_bytes()) ==> r is None,
    {
        self.bams.get(name.as_bytes())
    }

    /// Set the candidate from a locus written `CHROM:POS` or `CHROM:POS:IDX`.
    pub fn locus(self, locus: &str) -> (r: Result<TestcaseBuilder, TestcaseError>)
        requires
            self.wf(),
        ensures
            match locus_spec(locus.spec_bytes()) {
                Ok((c, p, i)) => r matches Ok(b) && {
                    &&& b.wf()
                    &&& b.spec_chrom_name() == Some(c)
                    &&& b.spec_pos() == Some(p)
                    &&& b.spec_idx() == Some(i)
                    &&& b.spec_bams() == self.spec_bams()
                },
                Err(e) => r matches Err(x) && x == e,
            },
    {
        let s = locus.as_bytes();
        let n = s.len();
        let c1 = match find_byte(s, COLON, 0) {
            Some(c) => c,
            None => {
                return Err(TestcaseError::InvalidLocus);
            },
        };
        if c1 == 0 {
            return Err(TestcaseError::InvalidLocus);
        }
        let c2 = find_byte(s, COLON, c1 + 1);
        let (pos_text, idx_text) = match c2 {
            None => (copy_range(s, c1 + 1, s.len()), None),
            Some(c2) => (copy_range(s, c1 + 1, c2), Some(copy_range(s, c2 + 1, s.len()))),
        };
        let pos = match read_one_based(pos_text.as_slice(), 4294967295u64) {
            Ok(p) => p,
            Err(e) => {
                match idx_text {
                    Some(t) => {
                        let te = read_one_based(t.as_slice(), 1u64);
                        if let Err(TestcaseError::InvalidLocus) = te {
                            return Err(TestcaseError::InvalidLocus);
                        }
                        return Err(e);
                    },
                    None => {
                        return Err(e);
                    },
                }
            },
        };
        let idx = match idx_text {
            None => 0usize,
            Some(t) => match read_one_based(t.as_slice(), usize::MAX as u64) {
                Ok(i) => i as usize,
                Err(e) => {
                    return Err(e);
                },
            },
        };
        let chrom = copy_range(s, 0, c1);
        Ok(TestcaseBuilder { chrom_name: Some(chrom), pos: Some(pos as u32), idx: Some(idx), bams: self.bams })
    }

    /// Register the alignment file of a sample; a second file for the same
    /// sample replaces the first.
    pub fn register_bam(self, name: &str, path: &str) -> (r: TestcaseBuilder)
        requires
            self.wf(),
        ensures
            r.wf(),
            r.spec_chrom_name() == self.spec_chrom_name(),
            r.spec_pos() == self.spec_pos(),
            r.spec_idx() == self.spec_idx(),
            r.spec_bams().dom() == self.spec_bams().dom().insert(name.spec_bytes()),
            r.spec_bams()[name.spec_bytes()]@ == path@,
            forall|k: Seq<u8>| k != name.spec_bytes() && #[trigger] self.spec_bams().contains_key(k)
                ==> r.spec_bams()[k] == self.spec_bams()[k],
    {
        let mut s = self;
        let name_bytes = name.as_bytes();
        let key = copy_range(name_bytes, 0, name_bytes.len());
        assert(key@ =~= name.spec_bytes());
        let value = path.to_string();
        s.bams.insert(key, value);
        assert(s.bams@.dom() =~= self.bams@.dom().insert(name.spec_bytes()));
        s
    }
}

} // verus!
