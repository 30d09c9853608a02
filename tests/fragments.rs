use varlociraptor::fragments::{
    estimate_insert_size, n_fragment_positions, overlap_fraction, read_offsets, read_sampling_fraction,
    valid_placement_fraction,
};
use varlociraptor::sample::ReadSpan;

fn _test_n_fragment_positions(insert_size: u32) -> u32 {
    // window to the left and right of the variant
    let window = 364;
    let read_len = 100;

    n_fragment_positions(insert_size, read_len, read_len, window)
}

#[test]
fn test_n_fragment_positions_too_small() {
    let n = _test_n_fragment_positions(150);
    // Not enough space for placements around a centerpoint.
    assert_eq!(n, 0);

    let n = _test_n_fragment_positions(200);
    // Not enough space for placements around a centerpoint.
    assert_eq!(n, 0);
}

#[test]
fn test_n_fragment_positions_exact() {
    let n = _test_n_fragment_positions(201);
    // Enough space for 1 placement around a centerpoint.
    assert_eq!(n, 1);
}

#[test]
fn test_n_fragment_positions() {
    let n = _test_n_fragment_positions(202);
    // Enough space for 2 placements around a centerpoint.
    assert_eq!(n, 2);
}

#[test]
fn test_n_fragment_positions_too_large() {
    let n = _test_n_fragment_positions(800);
    assert_eq!(n, 0);
}

#[test]
fn n_fragment_positions_limited_by_window() {
    // enclosing allows 300 placements, the window only 364 - 360 + 1 = 5
    assert_eq!(n_fragment_positions(360, 30, 30, 364), 5);
}

#[test]
fn n_fragment_positions_extreme_values() {
    assert_eq!(n_fragment_positions(u32::MAX, 0, 0, u32::MAX), 1);
    assert_eq!(n_fragment_positions(0, u32::MAX, u32::MAX, u32::MAX), 0);
}

#[test]
fn insert_size_spans_both_reads_with_clips() {
    let left = ReadSpan { pos: 100, end_pos: 200, leading_softclips: 5, trailing_softclips: 0 };
    let right = ReadSpan { pos: 300, end_pos: 400, leading_softclips: 0, trailing_softclips: 7 };
    assert_eq!(estimate_insert_size(&left, &right), 407 - 95);
}

#[test]
fn placement_fractions() {
    assert_eq!(read_offsets(100, 90, 100, 120), 10);
    assert_eq!(valid_placement_fraction(300, 0, 10), Some((290, 300)));
    assert_eq!(valid_placement_fraction(10, 0, 10), None);
    assert_eq!(valid_placement_fraction(5, 8, 0), None);
    assert_eq!(overlap_fraction(10, 100, 5, 3, 5), (8, 15));
    assert_eq!(read_sampling_fraction(10, 100, 4), (4, 10));
    assert_eq!(read_sampling_fraction(200, 100, 150), (100, 100));
}
