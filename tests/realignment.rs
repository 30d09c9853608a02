use varlociraptor::realignment::{
    deletion_emission, indel_boundaries, indel_emissions, insertion_emission, read_window, reference_emission,
    HaplotypeEdit, ReadWindow,
};
use varlociraptor::variants::Variant;

fn bases(w: &varlociraptor::realignment::EmissionWindow) -> Vec<u8> {
    (0..w.len_x()).map(|i| w.ref_base(i)).collect()
}

#[test]
fn reference_window_is_clamped() {
    let reference = b"ACGTACGTAC".to_vec();
    let w = reference_emission(&reference, 5, 3);
    assert_eq!(w.offset, 2);
    assert_eq!(bases(&w), b"GTACGT".to_vec());
    let w = reference_emission(&reference, 8, 3);
    assert_eq!(bases(&w), b"CGTAC".to_vec());
}

#[test]
fn deletion_haplotype_skips_deleted_bases() {
    let reference = b"AAAACCCGGGG".to_vec();
    // anchor at 3, delete CCC
    let w = deletion_emission(&reference, 3, 3, 3);
    assert_eq!(w.offset, 0);
    assert_eq!(bases(&w), b"AAAAGG".to_vec());
    // near the contig end the window stops at the end of the haplotype
    let w = deletion_emission(&reference, 3, 3, 100);
    assert_eq!(bases(&w), b"AAAAGGGG".to_vec());
}

#[test]
fn insertion_haplotype_holds_inserted_bases() {
    let reference = b"AAAACCCC".to_vec();
    let ins = b"TTT".to_vec();
    let w = insertion_emission(&reference, 3, &ins, 1);
    // offset 2; end min(3+3+1, 8) + 3 = 10
    assert_eq!(bases(&w), b"AATTTCCC".to_vec());
}

#[test]
fn read_windows() {
    let both = read_window(100, 110, Some(40), Some(45), 100, 60, 10);
    assert_eq!(both, ReadWindow { read_offset: 30, read_end: 55, breakpoint: 100, overlap: true });
    let left_only = read_window(100, 110, Some(95), None, 100, 5, 10);
    assert_eq!(left_only, ReadWindow { read_offset: 85, read_end: 100, breakpoint: 100, overlap: true });
    let right_only = read_window(100, 110, None, Some(3), 100, 107, 10);
    assert_eq!(right_only, ReadWindow { read_offset: 0, read_end: 13, breakpoint: 110, overlap: true });
    let neither = read_window(100, 110, None, None, 100, 200, 10);
    assert_eq!(neither, ReadWindow { read_offset: 40, read_end: 60, breakpoint: 250, overlap: false });
    assert_eq!(neither.len_y(), 20);
    assert_eq!(neither.project_j(3), 43);
}

#[test]
fn indel_boundaries_of_variants() {
    assert_eq!(indel_boundaries(100, &Variant::Deletion(5)), (100, 105));
    assert_eq!(indel_boundaries(100, &Variant::Insertion(b"AC".to_vec())), (100, 101));
}

#[test]
fn indel_emissions_for_overlapping_and_distant_reads() {
    let reference = b"ACGTACGTACGTACGTACGT".to_vec();
    let del = Variant::Deletion(2);
    let (w, r, alt) = indel_emissions(&reference, 8, &del, Some(4), Some(6), 12, 4, 2);
    assert_eq!(w, ReadWindow { read_offset: 2, read_end: 8, breakpoint: 8, overlap: true });
    // reference window 3 bases to each side of the breakpoint
    assert_eq!(r.offset, 5);
    assert_eq!(bases(&r), b"CGTACG".to_vec());
    let alt = alt.unwrap();
    assert!(matches!(alt.edit, HaplotypeEdit::Deletion { start: 8, len: 2 }));
    assert_eq!(bases(&alt), b"CGTATA".to_vec());
    let (w, _, alt) = indel_emissions(&reference, 8, &del, None, None, 12, 0, 2);
    assert!(!w.overlap);
    assert!(alt.is_none());
}
