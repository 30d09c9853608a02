use vstd::prelude::*;
use crate::text::{copy_range, find_byte, find_from, parse_decimal, parse_decimal_spec};

verus! {

pub const OPEN_BRACKET: u8 = 91;
pub const CLOSE_BRACKET: u8 = 93;
pub const COLON: u8 = 58;
pub const DOT: u8 = 46;

/// Which piece of the mate's contig continues the breakend: the one to the
/// left or the one to the right of the mate position.
#[derive(Clone, Copy, Debug, PartialEq, Eq, Structural)]
pub enum Side {
    LeftOfPos,
    RightOfPos,
}

/// Whether the joined piece is read as it is or reverse complemented.
#[derive(Clone, Copy, Debug, PartialEq, Eq, Structural)]
pub enum ExtensionModification {
    Unchanged,
    ReverseComplement,
}

/// Where and how the sequence continues after a breakend.
#[derive(Clone, Debug)]
pub struct Join {
    pub contig: Vec<u8>,
    /// 0-based position on `contig`.
    pub pos: u64,
    pub side: Side,
    pub extension_modification: ExtensionModification,
}

/// A breakend record: a position, the replacing bases and the join.
#[derive(Clone, Debug)]
pub struct Breakend {
    pub contig: Vec<u8>,
    pub pos: u64,
    pub ref_allele: Vec<u8>,
    /// The bases written beside the brackets in the ALT allele.
    pub replacement: Vec<u8>,
    pub join: Join,
    /// Whether the replacement comes before the join (`t[p[`, `t]p]`).
    pub is_left_to_right: bool,
    pub id: Vec<u8>,
    pub mateid: Vec<u8>,
}

/// Errors in breakend records.
#[derive(Clone, Copy, Debug, PartialEq, Eq, Structural)]
pub enum BreakendError {
    /// The ALT allele does not follow the breakend notation.
    InvalidBNDRecordAlt,
    /// A mated breakend without MATEID.
    InvalidBNDRecordMateid,
}

/// The parts of a breakend ALT allele.
pub enum BndAlt {
    /// A single breakend (`t.` or `.t`), which is not supported.
    Single,
    /// Not in breakend notation.
    Invalid,
    /// `left` `bracket` `contig:pos` `bracket` `right`, with `pos` 1-based.
    Mated { left: Seq<u8>, bracket: u8, contig: Seq<u8>, pos: u64, right: Seq<u8> },
}

pub open spec fn first_bracket(s: Seq<u8>) -> Option<int> {
    match (find_from(s, OPEN_BRACKET, 0), find_from(s, CLOSE_BRACKET, 0)) {
        (Some(a), Some(b)) => Some(if a < b { a } else { b }),
        (Some(a), None) => Some(a),
        (None, Some(b)) => Some(b),
        (None, None) => None,
    }
}

/// The reading of an ALT allele in breakend notation.
pub open spec fn bnd_alt(s: Seq<u8>) -> BndAlt {
    match first_bracket(s) {
        None => if s.len() > 0 && (s[0] == DOT || s.last() == DOT) { BndAlt::Single } else { BndAlt::Invalid },
        Some(b1) => {
            let bracket = s[b1];
            match find_from(s, bracket, b1 + 1) {
                None => BndAlt::Invalid,
                Some(b2) => {
                    let left = s.subrange(0, b1);
                    let right = s.subrange(b2 + 1, s.len() as int);
                    match find_from(s, COLON, b1 + 1) {
                        Some(c) if c < b2 && c > b1 + 1
                            && find_from(s, OPEN_BRACKET, b2 + 1) is None
                            && find_from(s, CLOSE_BRACKET, b2 + 1) is None
                            && (left.len() == 0) != (right.len() == 0) =>
                            match parse_decimal_spec(s.subrange(c + 1, b2)) {
                                Some(p) if p >= 1 => BndAlt::Mated {
                                    left,
                                    bracket,
                                    contig: s.subrange(b1 + 1, c),
                                    pos: p,
                                    right,
                                },
                                _ => BndAlt::Invalid,
                            },
                        _ => BndAlt::Invalid,
                    }
                },
            }
        },
    }
}

/// The join of a mated breakend: `[` joins the piece right of the mate
/// position, `]` the piece left of it; the piece is reverse complemented for
/// `t]p]` and `[p[t`.
pub open spec fn join_side(bracket: u8) -> Side {
    if bracket == OPEN_BRACKET { Side::RightOfPos } else { Side::LeftOfPos }
}

pub open spec fn join_modification(left_to_right: bool, bracket: u8) -> ExtensionModification {
    if left_to_right == (bracket == OPEN_BRACKET) {
        ExtensionModification::Unchanged
    } else {
        ExtensionModification::ReverseComplement
    }
}

impl Breakend {
    /// Read a breakend record at `pos` of `contig` with the ALT allele `spec`.
    /// Single breakends give `None`; an ALT allele not in breakend notation,
    /// or a mated breakend without MATEID, an error.
    pub fn new(
        contig: Vec<u8>,
        pos: u64,
        ref_allele: &[u8],
        spec: &[u8],
        id: &[u8],
        mateid: Option<Vec<u8>>,
    ) -> (r: Result<Option<Breakend>, BreakendError>)
        ensures
            match bnd_alt(spec@) {
                BndAlt::Single => r == Ok::<Option<Breakend>, BreakendError>(None),
                BndAlt::Invalid => r == Err::<Option<Breakend>, BreakendError>(BreakendError::InvalidBNDRecordAlt),
                BndAlt::Mated { left, bracket, contig: mate_contig, pos: mate_pos, right } => match mateid {
                    None => r == Err::<Option<Breakend>, BreakendError>(BreakendError::InvalidBNDRecordMateid),
                    Some(m) => r matches Ok(Some(b)) && {
                        &&& b.contig@ == contig@
                        &&& b.pos == pos
                        &&& b.ref_allele@ == ref_allele@
                        &&& b.id@ == id@
                        &&& b.mateid@ == m@
                        &&& b.is_left_to_right == (left.len() > 0)
                        &&& b.replacement@ == (if left.len() > 0 { left } else { right })
                        &&& b.join.contig@ == mate_contig
                        &&& b.join.pos == mate_pos - 1
                        &&& b.join.side == join_side(bracket)
                        &&& b.join.extension_modification == join_modification(left.len() > 0, bracket)
                    },
                },
            },
    {
        let n = spec.len();
        let open = find_byte(spec, OPEN_BRACKET, 0);
        let close = find_byte(spec, CLOSE_BRACKET, 0);
        let b1 = match (open, close) {
            (Some(a), Some(b)) => if a < b { a } else { b },
            (Some(a), None) => a,
            (None, Some(b)) => b,
            (None, None) => {
                if n > 0 && (spec[0] == DOT || spec[n - 1] == DOT) {
                    return Ok(None);
                } else {
                    return Err(BreakendError::InvalidBNDRecordAlt);
                }
            },
        };
        assert(first_bracket(spec@) == Some(b1 as int));
        let bracket = spec[b1];
        let b2 = match find_byte(spec, bracket, b1 + 1) {
            Some(b2) => b2,
            None => {
                return Err(BreakendError::InvalidBNDRecordAlt);
            },
        };
        let colon = match find_byte(spec, COLON, b1 + 1) {
            Some(c) => c,
            None => {
                return Err(BreakendError::InvalidBNDRecordAlt);
            },
        };
        let later_open = find_byte(spec, OPEN_BRACKET, b2 + 1);
        let later_close = find_byte(spec, CLOSE_BRACKET, b2 + 1);
        let left_empty = b1 == 0;
        let right_empty = b2 + 1 == n;
        if !(colon < b2 && colon > b1 + 1) || later_open.is_some() || later_close.is_some()
            || left_empty == right_empty {
            return Err(BreakendError::InvalidBNDRecordAlt);
        }
        let digits = copy_range(spec, colon + 1, b2);
        let mate_pos = match parse_decimal(digits.as_slice()) {
            Some(p) => p,
            None => {
                return Err(BreakendError::InvalidBNDRecordAlt);
            },
        };
        if mate_pos < 1 {
            return Err(BreakendError::InvalidBNDRecordAlt);
        }
        let mateid = match mateid {
            Some(m) => m,
            None => {
                return Err(BreakendError::InvalidBNDRecordMateid);
            },
        };
        let left_to_right = !left_empty;
        let replacement = if left_to_right { copy_range(spec, 0, b1) } else { copy_range(spec, b2 + 1, n) };
        let side = if bracket == OPEN_BRACKET { Side::RightOfPos } else { Side::LeftOfPos };
        let extension_modification = if left_to_right == (bracket == OPEN_BRACKET) {
            ExtensionModification::Unchanged
        } else {
            ExtensionModification::ReverseComplement
        };
        let join = Join { contig: copy_range(spec, b1 + 1, colon), pos: mate_pos - 1, side, extension_modification };
        let ref_allele = copy_range(ref_allele, 0, ref_allele.len());
        let id = copy_range(id, 0, id.len());
        Ok(Some(Breakend {
            contig,
            pos,
            ref_allele,
            replacement,
            join,
            is_left_to_right: left_to_right,
            id,
            mateid,
        }))
    }
}

pub const ID_U: u8 = 117;
pub const ID_W: u8 = 119;

/// The two breakends that encode the replacement of the reference bases
/// `[start, end)` of `contig` by `replacement` (as in the VCF specification):
/// the first, at `start`, carries the replacement and joins the piece right
/// of `end - 1`; the second, at `end - 1`, carries the replacement without its
/// first base plus the base at `end`, and joins the piece left of `start`.
pub fn replacement_breakends(
    contig: &Vec<u8>,
    start: u64,
    end: u64,
    replacement: &Vec<u8>,
    chrom_seq: &[u8],
) -> (r: (Breakend, Breakend))
    requires
        start < end,
        end < chrom_seq@.len(),
        replacement@.len() >= 1,
    ensures
        r.0.contig@ == contig@,
        r.0.pos == start,
        r.0.ref_allele@ == seq![chrom_seq@[start as int]],
        r.0.replacement@ == replacement@,
        r.0.join.contig@ == contig@,
        r.0.join.pos == end - 1,
        r.0.join.side == Side::RightOfPos,
        r.0.join.extension_modification == ExtensionModification::Unchanged,
        r.0.is_left_to_right,
        r.0.id@ == seq![ID_U],
        r.0.mateid@ == seq![ID_W],
        r.1.contig@ == contig@,
        r.1.pos == end - 1,
        r.1.ref_allele@ == seq![chrom_seq@[end as int]],
        r.1.replacement@ == replacement@.drop_first().push(chrom_seq@[end as int]),
        r.1.join.contig@ == contig@,
        r.1.join.pos == start,
        r.1.join.side == Side::LeftOfPos,
        r.1.join.extension_modification == ExtensionModification::Unchanged,
        !r.1.is_left_to_right,
        r.1.id@ == seq![ID_W],
        r.1.mateid@ == seq![ID_U],
{
    let n = chrom_seq.len();
    assert(end < n);
    let s = start as usize;
    let e = end as usize;
    let first = Breakend {
        contig: copy_range(contig.as_slice(), 0, contig.len()),
        pos: start,
        ref_allele: copy_range(chrom_seq, s, s + 1),
        replacement: copy_range(replacement.as_slice(), 0, replacement.len()),
        join: Join {
            contig: copy_range(contig.as_slice(), 0, contig.len()),
            pos: end - 1,
            side: Side::RightOfPos,
            extension_modification: ExtensionModification::Unchanged,
        },
        is_left_to_right: true,
        id: vec![ID_U],
        mateid: vec![ID_W],
    };
    let mut shifted = copy_range(replacement.as_slice(), 1, replacement.len());
    shifted.push(chrom_seq[e]);
    let second = Breakend {
        contig: copy_range(contig.as_slice(), 0, contig.len()),
        pos: end - 1,
        ref_allele: copy_range(chrom_seq, e, e + 1),
        replacement: shifted,
        join: Join {
            contig: copy_range(contig.as_slice(), 0, contig.len()),
            pos: start,
            side: Side::LeftOfPos,
            extension_modification: ExtensionModification::Unchanged,
        },
        is_left_to_right: false,
        id: vec![ID_W],
        mateid: vec![ID_U],
    };
    assert(first.contig@ =~= contig@);
    assert(first.ref_allele@ =~= seq![chrom_seq@[start as int]]);
    assert(second.ref_allele@ =~= seq![chrom_seq@[end as int]]);
    assert(second.replacement@ =~= replacement@.drop_first().push(chrom_seq@[end as int]));
    (first, second)
}

} // verus!
