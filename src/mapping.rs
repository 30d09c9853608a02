use vstd::prelude::*;
use crate::keyed::bytes_equal;
use crate::text::{all_digits, copy_range, decimal_value, find_byte, find_from, is_digit, parse_decimal};

verus! {

pub const SEMICOLON: u8 = 59;
pub const COMMA: u8 = 44;
pub const PLUS: u8 = 43;
pub const MINUS: u8 = 45;

/// CIGAR operation letters: M I D N S H P = X.
pub open spec fn is_cigar_op(b: u8) -> bool {
    b == 77 || b == 73 || b == 68 || b == 78 || b == 83 || b == 72 || b == 80 || b == 61 || b == 88
}

/// A CIGAR string: one or more operations, each a count and a letter.
pub open spec fn is_cigar(s: Seq<u8>) -> bool {
    &&& s.len() > 0
    &&& is_digit(s[0])
    &&& is_cigar_op(s.last())
    &&& forall|i: int| 0 <= i < s.len() ==> is_digit(#[trigger] s[i]) || is_cigar_op(s[i])
    &&& forall|i: int| 0 < i < s.len() && is_cigar_op(#[trigger] s[i]) ==> is_digit(s[i - 1])
}

/// An alternative hit as the XA tag writes it, `chrom,[+-]pos,cigar,nm`
/// (`pos` 1-based), read as contig, position and CIGAR string.
pub open spec fn xa_entry(p: Seq<u8>) -> Option<(Seq<u8>, nat, Seq<u8>)> {
    match find_from(p, COMMA, 0) {
        Some(c1) if c1 > 0 => match find_from(p, COMMA, c1 + 1) {
            Some(c2) => match find_from(p, COMMA, c2 + 1) {
                Some(c3) => {
                    let signed = c1 + 1 < c2 && (p[c1 + 1] == PLUS || p[c1 + 1] == MINUS);
                    let digits = p.subrange(if signed { c1 + 2 } else { c1 + 1 }, c2);
                    let cigar = p.subrange(c2 + 1, c3);
                    let nm = p.subrange(c3 + 1, p.len() as int);
                    if digits.len() > 0 && all_digits(digits) && is_cigar(cigar) && nm.len() > 0 && all_digits(nm) {
                        Some((p.subrange(0, c1), decimal_value(digits), cigar))
                    } else {
                        None
                    }
                },
                None => None,
            },
            None => None,
        },
        _ => None,
    }
}

/// Errors in alternative hits.
#[derive(Clone, Copy, Debug, PartialEq, Eq, Structural)]
pub enum XaError {
    /// A hit on the contig has position 0 or one beyond 32 bits.
    InvalidPosition,
}

/// The hits on `chrom` among the `;`-terminated entries of an XA tag from
/// `from` on, in order, as 0-based positions and CIGAR strings. Entries that
/// are not in the XA form are skipped.
pub open spec fn xa_hits_from(s: Seq<u8>, chrom: Seq<u8>, from: int) -> Result<Seq<(u32, Seq<u8>)>, XaError>
    decreases s.len() - from,
{
    if from < 0 || from >= s.len() {
        Ok(seq![])
    } else {
        match find_from(s, SEMICOLON, from) {
            None => Ok(seq![]),
            Some(k) => {
                let rest = if from <= k < s.len() { xa_hits_from(s, chrom, k + 1) } else { Ok(seq![]) };
                match xa_entry(s.subrange(from, k)) {
                    Some((c, pos, cigar)) if c == chrom =>
                        if pos == 0 || pos > u32::MAX {
                            Err(XaError::InvalidPosition)
                        } else {
                            match rest {
                                Ok(r) => Ok(seq![((pos - 1) as u32, cigar)] + r),
                                Err(e) => Err(e),
                            }
                        },
                    _ => rest,
                }
            },
        }
    }
}

pub open spec fn prepend(acc: Seq<(u32, Seq<u8>)>, r: Result<Seq<(u32, Seq<u8>)>, XaError>) -> Result<Seq<(u32, Seq<u8>)>, XaError> {
    match r {
        Ok(x) => Ok(acc + x),
        Err(e) => Err(e),
    }
}

fn all_digits_exec(s: &[u8], from: usize, to: usize) -> (r: bool)
    requires
        from <= to <= s@.len(),
    ensures
        r == all_digits(s@.subrange(from as int, to as int)),
{
    let mut i = from;
    while i < to
        invariant
            from <= i <= to <= s@.len(),
            forall|k: int| from <= k < i ==> is_digit(#[trigger] s@[k]),
        decreases to - i,
    {
        if s[i] < 48 || s[i] > 57 {
            assert(!is_digit(s@.subrange(from as int, to as int)[i - from]));
            return false;
        }
        i = i + 1;
    }
    assert forall|k: int| 0 <= k < to - from implies is_digit(#[trigger] s@.subrange(from as int, to as int)[k]) by {
        assert(s@.subrange(from as int, to as int)[k] == s@[from + k]);
    }
    true
}

fn is_cigar_op_exec(b: u8) -> (r: bool)
    ensures
        r == is_cigar_op(b),
{
    b == 77 || b == 73 || b == 68 || b == 78 || b == 83 || b == 72 || b == 80 || b == 61 || b == 88
}

fn is_cigar_exec(s: &[u8]) -> (r: bool)
    ensures
        r == is_cigar(s@),
{
    let n = s.len();
    if n == 0 || s[0] < 48 || s[0] > 57 || !is_cigar_op_exec(s[n - 1]) {
        return false;
    }
    let mut i: usize = 0;
    while i < n
        invariant
            n == s@.len(),
            0 <= i <= n,
            forall|k: int| 0 <= k < i ==> is_digit(#[trigger] s@[k]) || is_cigar_op(s@[k]),
            forall|k: int| 0 < k < i && is_cigar_op(#[trigger] s@[k]) ==> is_digit(s@[k - 1]),
        decreases n - i,
    {
        let b = s[i];
        let digit = b >= 48 && b <= 57;
        let op = is_cigar_op_exec(b);
        if !digit && !op {
            return false;
        }
        if op && i > 0 && (s[i - 1] < 48 || s[i - 1] > 57) {
            return false;
        }
        i = i + 1;
    }
    true
}

/// Read one XA entry.
pub fn parse_xa_entry(p: &[u8]) -> (r: Option<(Vec<u8>, Option<u64>, Vec<u8>)>)
    ensures
        match xa_entry(p@) {
            Some((c, pos, cigar)) => r matches Some(e) && e.0@ == c && e.2@ == cigar
                && (pos <= u64::MAX ==> e.1 == Some(pos as u64))
                && (pos > u64::MAX ==> e.1 is None),
            None => r is None,
        },
{
    let n = p.len();
    let c1 = match find_byte(p, COMMA, 0) {
        Some(c) => c,
        None => {
            return None;
        },
    };
    if c1 == 0 {
        return None;
    }
    let c2 = match find_byte(p, COMMA, c1 + 1) {
        Some(c) => c,
        None => {
            return None;
        },
    };
    let c3 = match find_byte(p, COMMA, c2 + 1) {
        Some(c) => c,
        None => {
            return None;
        },
    };
    let signed = c1 + 1 < c2 && (p[c1 + 1] == PLUS || p[c1 + 1] == MINUS);
    let d0 = if signed { c1 + 2 } else { c1 + 1 };
    if d0 >= c2 || !all_digits_exec(p, d0, c2) {
        return None;
    }
    let cigar = copy_range(p, c2 + 1, c3);
    if !is_cigar_exec(cigar.as_slice()) || c3 + 1 >= n || !all_digits_exec(p, c3 + 1, n) {
        return None;
    }
    let digits = copy_range(p, d0, c2);
    let pos = parse_decimal(digits.as_slice());
    Some((copy_range(p, 0, c1), pos, cigar))
}

/// The alternative hits that an XA tag lists on contig `chrom`, in order, with
/// 0-based positions and their CIGAR strings. The mapping quality of a read
/// is reconsidered against these hits.
pub fn xa_hits(xa: &[u8], chrom: &[u8]) -> (r: Result<Vec<(u32, Vec<u8>)>, XaError>)
    ensures
        match xa_hits_from(xa@, chrom@, 0) {
            Ok(hits) => r matches Ok(v) && v@.len() == hits.len()
                && forall|i: int| 0 <= i < hits.len() ==> (#[trigger] v@[i]).0 == hits[i].0 && v@[i].1@ == hits[i].1,
            Err(e) => r == Err::<Vec<(u32, Vec<u8>)>, XaError>(e),
        },
{
    let n = xa.len();
    let mut acc: Vec<(u32, Vec<u8>)> = Vec::new();
    let ghost mut acc_view: Seq<(u32, Seq<u8>)> = seq![];
    let mut from: usize = 0;
    while from < n
        invariant
            n == xa@.len(),
            from <= n,
            acc@.len() == acc_view.len(),
            forall|i: int| 0 <= i < acc_view.len() ==> (#[trigger] acc@[i]).0 == acc_view[i].0 && acc@[i].1@ == acc_view[i].1,
            xa_hits_from(xa@, chrom@, 0) == prepend(acc_view, xa_hits_from(xa@, chrom@, from as int)),
        decreases n - from,
    {
        let k = match find_byte(xa, SEMICOLON, from) {
            Some(k) => k,
            None => {
                assert(xa_hits_from(xa@, chrom@, from as int) == Ok::<Seq<(u32, Seq<u8>)>, XaError>(seq![]));
                from = n;
                continue;
            },
        };
        let piece = copy_range(xa, from, k);
        let ghost rest = xa_hits_from(xa@, chrom@, k as int + 1);
        assert(xa_hits_from(xa@, chrom@, from as int) == match xa_entry(piece@) {
            Some((c, pos, cigar)) if c == chrom@ =>
                if pos == 0 || pos > u32::MAX {
                    Err(XaError::InvalidPosition)
                } else {
                    match rest {
                        Ok(r) => Ok(seq![((pos - 1) as u32, cigar)] + r),
                        Err(e) => Err(e),
                    }
                },
            _ => rest,
        });
        match parse_xa_entry(piece.as_slice()) {
            Some((c, pos, cigar)) => {
                if bytes_equal(c.as_slice(), chrom) {
                    let p = match pos {
                        Some(p) => p,
                        None => {
                            return Err(XaError::InvalidPosition);
                        },
                    };
                    if p == 0 || p > 4294967295u64 {
                        return Err(XaError::InvalidPosition);
                    }
                    let ghost item = ((p - 1) as u32, cigar@);
                    acc.push(((p - 1) as u32, cigar));
                    proof {
                        match rest {
                            Ok(r) => {
                                assert(acc_view + (seq![item] + r) == acc_view.push(item) + r);
                            },
                            Err(e) => {},
                        }
                        acc_view = acc_view.push(item);
                    }
                }
            },
            None => {},
        }
        from = k + 1;
    }
    proof {
        assert(acc_view + seq![] =~= acc_view);
    }
    assert(acc@.len() == acc_view.len());
    Ok(acc)
}

} // verus!
