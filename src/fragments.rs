use vstd::prelude::*;
use crate::sample::ReadSpan;

verus! {

/// Number of placements of a fragment around a centerpoint: the fragment must
/// enclose the centerpoint and fit into the sampling window.
pub open spec fn fragment_positions_spec(
    insert_size: int,
    left_read_len: int,
    right_read_len: int,
    window: int,
) -> int {
    let enclose = insert_size - left_read_len - right_read_len;
    let fit = window - insert_size + 1;
    let a = if enclose > 0 { enclose } else { 0 };
    let b = if fit > 0 { fit } else { 0 };
    if a < b { a } else { b }
}

/// Calculate the number of positions a fragment can have in a given window
/// (Sahlin et al. 2015).
///
/// * `insert_size` - observed insert size according to the read mapper
/// * `left_read_len` - read length of the left read
/// * `right_read_len` - read length of the right read
/// * `window` - size of the considered sampling window (total, symmetric around the event)
pub fn n_fragment_positions(
    insert_size: u32,
    left_read_len: u32,
    right_read_len: u32,
    window: u32,
) -> (n: u32)
    ensures
        n as int == fragment_positions_spec(
            insert_size as int,
            left_read_len as int,
            right_read_len as int,
            window as int,
        ),
{
    let isize = insert_size as i64;
    let enclose: i64 = isize - left_read_len as i64 - right_read_len as i64;
    let fit: i64 = window as i64 - isize + 1;
    let a: i64 = if enclose > 0 { enclose } else { 0 };
    let b: i64 = if fit > 0 { fit } else { 0 };
    let n: i64 = if a < b { a } else { b };
    n as u32
}

/// Estimate the insert size of a read pair from the alignments projected on
/// the reference with their clips: from the start of the left read to the end
/// of the right read. (This is the insert size of the alignment, not
/// necessarily of the real fragment.) The clip fields of the spans hold the
/// clips to count, soft and hard.
pub fn estimate_insert_size(left: &ReadSpan, right: &ReadSpan) -> (r: u64)
    requires
        left.wf(),
        right.wf(),
        right.last(true) > left.first(true),
    ensures
        r == right.last(true) - left.first(true),
{
    let left_start = left.pos.saturating_sub(left.leading_softclips);
    let right_end = right.end_pos + right.trailing_softclips;
    right_end - left_start
}

pub open spec fn min_spec(a: int, b: int) -> int {
    if a < b { a } else { b }
}

pub open spec fn sat_sub(a: int, b: int) -> int {
    if a > b { a - b } else { 0 }
}

/// Bases of a fragment's reads that cannot be placed on the variant because
/// the mapper would not align them there (beyond the feasible bases).
pub fn read_offsets(left_read_len: u64, left_feasible: u64, right_read_len: u64, right_feasible: u64) -> (r: u64)
    requires
        left_read_len + right_read_len <= u64::MAX,
    ensures
        r == sat_sub(left_read_len as int, left_feasible as int) + sat_sub(right_read_len as int, right_feasible as int),
{
    left_read_len.saturating_sub(left_feasible) + right_read_len.saturating_sub(right_feasible)
}

/// For a fragment of true insert size `x` at a variant of length `delta`,
/// the fraction of its placements enclosing the variant that are valid, as
/// numerator and denominator; `None` when `x` is too small to enclose it.
pub fn valid_placement_fraction(x: u64, delta: u64, read_offsets: u64) -> (r: Option<(u64, u64)>)
    ensures
        x <= delta + read_offsets ==> r is None,
        x > delta + read_offsets ==> r == Some(((x - delta - read_offsets) as u64, (x - delta) as u64)),
{
    if x <= delta || x - delta <= read_offsets {
        None
    } else {
        Some((x - delta - read_offsets, x - delta))
    }
}

/// For an insertion of length `delta`, the fraction of the bases of a
/// fragment's reads that could overlap it which the mapper can place there,
/// as numerator and denominator.
pub fn overlap_fraction(
    delta: u64,
    left_read_len: u64,
    right_read_len: u64,
    left_feasible: u64,
    right_feasible: u64,
) -> (r: (u64, u64))
    requires
        left_read_len + right_read_len <= u64::MAX,
    ensures
        r.0 == min_spec(min_spec(delta as int, left_read_len as int), left_feasible as int)
            + min_spec(min_spec(delta as int, right_read_len as int), right_feasible as int),
        r.1 == min_spec(delta as int, left_read_len as int) + min_spec(delta as int, right_read_len as int),
        r.0 <= r.1,
{
    let n_alt_left = if delta < left_read_len { delta } else { left_read_len };
    let n_alt_right = if delta < right_read_len { delta } else { right_read_len };
    let valid_left = if n_alt_left < left_feasible { n_alt_left } else { left_feasible };
    let valid_right = if n_alt_right < right_feasible { n_alt_right } else { right_feasible };
    (valid_left + valid_right, n_alt_left + n_alt_right)
}

/// For a single read of length `read_len` at an indel of length `delta`, the
/// fraction of alt placements that the mapper aligns with at most
/// `max_softclip` clipped bases, as numerator and denominator.
pub fn read_sampling_fraction(delta: u64, read_len: u64, max_softclip: u64) -> (r: (u64, u64))
    ensures
        r.1 == min_spec(delta as int, read_len as int),
        r.0 == min_spec(r.1 as int, max_softclip as int),
{
    let n_alt = if delta < read_len { delta } else { read_len };
    let n_alt_valid = if n_alt < max_softclip { n_alt } else { max_softclip };
    (n_alt_valid, n_alt)
}

} // verus!
