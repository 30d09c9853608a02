use varlociraptor::insertion::{Insertion, PairedEndEvidence};
use varlociraptor::mapping::{parse_xa_entry, xa_hits, XaError};
use varlociraptor::realignment::HaplotypeEdit;
use varlociraptor::sample::{
    indel_read_action, is_reliable_read, is_valid_fragment_indel_overlap, is_valid_read_indel_overlap, overlap,
    variant_end_and_centerpoint, Overlap, ReadAction, ReadFlags, ReadSpan,
};
use varlociraptor::variants::{str_equals, Variant, VariantType};

fn span(pos: u64, end_pos: u64) -> ReadSpan {
    ReadSpan { pos, end_pos, leading_softclips: 0, trailing_softclips: 0 }
}

#[test]
fn variant_lengths() {
    assert_eq!(Variant::Deletion(7).len(), 7);
    assert_eq!(Variant::Insertion(b"ACGT".to_vec()).len(), 4);
    assert_eq!(Variant::SNV(b'A').len(), 1);
    assert_eq!(Variant::MNV(b"AC".to_vec()).len(), 2);
    assert_eq!(Variant::Reference.len(), 1);
}

#[test]
fn variant_types_with_ranges() {
    let del = Variant::Deletion(10);
    assert!(del.is_type(&VariantType::Deletion(None)));
    assert!(del.is_type(&VariantType::Deletion(Some(10..20))));
    assert!(!del.is_type(&VariantType::Deletion(Some(1..10))));
    assert!(!del.is_type(&VariantType::Insertion(None)));
    let ins = Variant::Insertion(b"AAA".to_vec());
    assert!(ins.is_type(&VariantType::Insertion(Some(3..4))));
    assert!(!ins.is_type(&VariantType::Insertion(Some(4..5))));
    assert!(Variant::SNV(b'T').is_type(&VariantType::SNV));
    assert!(Variant::MNV(b"TT".to_vec()).is_type(&VariantType::MNV));
    assert!(Variant::Reference.is_type(&VariantType::Reference));
    assert!(!Variant::SNV(b'T').is_type(&VariantType::MNV));
}

#[test]
fn variant_type_names() {
    assert!(matches!(VariantType::from("INS"), VariantType::Insertion(None)));
    assert!(matches!(VariantType::from("DEL"), VariantType::Deletion(None)));
    assert!(matches!(VariantType::from("SNV"), VariantType::SNV));
    assert!(matches!(VariantType::from("REF"), VariantType::Reference));
    assert!(matches!(VariantType::parse("MNV"), Some(VariantType::MNV)));
    assert!(VariantType::parse("XYZ").is_none());
    assert!(VariantType::parse("").is_none());
    assert!(str_equals("abc", "abc"));
    assert!(!str_equals("abc", "abd"));
}

#[test]
fn snv_overlap() {
    let v = Variant::SNV(b'A');
    assert_eq!(overlap(&span(10, 20), 10, &v, false), Overlap::Enclosing(1));
    assert_eq!(overlap(&span(10, 20), 19, &v, false), Overlap::Enclosing(1));
    assert_eq!(overlap(&span(10, 20), 20, &v, false), Overlap::Disjoint);
    assert_eq!(overlap(&span(10, 20), 9, &v, false), Overlap::Disjoint);
}

#[test]
fn deletion_overlap() {
    let v = Variant::Deletion(10);
    // deletion covers 100..110
    assert_eq!(overlap(&span(90, 120), 100, &v, false), Overlap::Enclosing(10));
    assert_eq!(overlap(&span(80, 105), 100, &v, false), Overlap::Right(5));
    assert_eq!(overlap(&span(104, 150), 100, &v, false), Overlap::Left(6));
    assert_eq!(overlap(&span(10, 50), 100, &v, false), Overlap::Disjoint);
    // soft clips extend the read
    let clipped = ReadSpan { pos: 95, end_pos: 105, leading_softclips: 10, trailing_softclips: 10 };
    assert_eq!(overlap(&clipped, 100, &v, true), Overlap::Enclosing(10));
    assert_eq!(overlap(&clipped, 100, &v, false), Overlap::Right(5));
}

#[test]
fn insertion_overlap() {
    let v = Variant::Insertion(b"ACG".to_vec());
    // start right of the read centre (50): overlap is end_pos - start
    assert_eq!(overlap(&span(0, 100), 90, &v, false), Overlap::Enclosing(3));
    assert_eq!(overlap(&span(0, 100), 98, &v, false), Overlap::Right(2));
    // start left of the centre: overlap is start - pos
    assert_eq!(overlap(&span(0, 100), 2, &v, false), Overlap::Left(2));
    assert_eq!(overlap(&span(0, 100), 10, &v, false), Overlap::Enclosing(3));
    assert_eq!(overlap(&span(0, 100), 100, &v, false), Overlap::Disjoint);
}

#[test]
fn overlap_predicates() {
    assert!(Overlap::Enclosing(3).is_enclosing());
    assert!(!Overlap::Left(3).is_enclosing());
    assert!(Overlap::Disjoint.is_none());
    assert!(!Overlap::Right(1).is_none());
}

#[test]
fn valid_indel_overlaps() {
    assert!(is_valid_read_indel_overlap(&Overlap::Left(20), 20));
    assert!(!is_valid_read_indel_overlap(&Overlap::Right(21), 20));
    assert!(is_valid_read_indel_overlap(&Overlap::Disjoint, 0));
    assert!(is_valid_fragment_indel_overlap(&Overlap::Right(5), true, 20));
    assert!(!is_valid_fragment_indel_overlap(&Overlap::Left(5), true, 20));
    assert!(is_valid_fragment_indel_overlap(&Overlap::Left(5), false, 20));
    assert!(!is_valid_fragment_indel_overlap(&Overlap::Right(5), false, 20));
    assert!(!is_valid_fragment_indel_overlap(&Overlap::Enclosing(30), false, 20));
}

#[test]
fn end_and_centerpoint() {
    assert_eq!(variant_end_and_centerpoint(100, &Variant::Deletion(10)), (110, 105));
    assert_eq!(variant_end_and_centerpoint(100, &Variant::Insertion(b"A".to_vec())), (101, 100));
    assert_eq!(variant_end_and_centerpoint(100, &Variant::SNV(b'A')), (100, 100));
}

#[test]
fn read_reliability() {
    assert!(is_reliable_read(Some(60), Some(20)));
    assert!(!is_reliable_read(Some(20), Some(20)));
    assert!(is_reliable_read(None, Some(20)));
    assert!(is_reliable_read(Some(1), None));
}

#[test]
fn fragment_read_actions() {
    let paired = ReadFlags { is_supplementary: false, is_mate_unmapped: false, is_first_in_template: true, is_last_in_template: false };
    let supp = ReadFlags { is_supplementary: true, ..paired };
    let lonely = ReadFlags { is_mate_unmapped: true, ..paired };
    let neither = ReadFlags { is_first_in_template: false, ..paired };
    assert_eq!(indel_read_action(&supp, 10, 300, 100, false, true), ReadAction::Skip);
    assert_eq!(indel_read_action(&lonely, 10, 300, 100, false, true), ReadAction::Single);
    assert_eq!(indel_read_action(&paired, 10, 300, 100, false, false), ReadAction::Single);
    assert_eq!(indel_read_action(&paired, 10, 300, 100, false, true), ReadAction::AwaitMate);
    assert_eq!(indel_read_action(&paired, 10, 50, 100, false, true), ReadAction::Skip);
    assert_eq!(indel_read_action(&paired, 150, 300, 100, true, true), ReadAction::PairWithMate);
    assert_eq!(indel_read_action(&paired, 150, 300, 100, false, true), ReadAction::Skip);
    assert_eq!(indel_read_action(&neither, 10, 300, 100, false, true), ReadAction::Skip);
}

#[test]
fn insertion_locus_and_evidence() {
    let ins = Insertion::new("chr1".to_string(), 546, b"GCATCCTGCG".to_vec());
    assert_eq!(ins.locus().start, 546);
    assert_eq!(ins.locus().end, 547);
    assert_eq!(ins.locus().contig, "chr1");
    assert_eq!(ins.len(), 10);
    let overlapping = PairedEndEvidence::SingleEnd(span(500, 600));
    assert_eq!(ins.is_valid_evidence(&overlapping), Some(vec![0]));
    let far = PairedEndEvidence::PairedEnd { left: span(100, 200), right: span(700, 800) };
    assert_eq!(ins.is_valid_evidence(&far), None);
    let clipped = ReadSpan { pos: 550, end_pos: 600, leading_softclips: 10, trailing_softclips: 0 };
    let pair = PairedEndEvidence::PairedEnd { left: span(100, 200), right: clipped };
    assert_eq!(ins.is_valid_evidence(&pair), Some(vec![0]));
}

#[test]
fn insertion_alt_emission() {
    let reference = b"AAAACCCCGGGG".to_vec();
    let ins = Insertion::new("c".to_string(), 3, b"TT".to_vec());
    let w = ins.alt_emission_params(&reference, 2);
    assert!(matches!(w.edit, HaplotypeEdit::Insertion { start: 3, .. }));
    let bases: Vec<u8> = (0..w.len_x()).map(|i| w.ref_base(i)).collect();
    // haplotype AAAA TT CCCCGGGG from offset 1; end min(3+2+2, 12) + 2 = 9
    assert_eq!(bases, b"AAATTCCC".to_vec());
}

#[test]
fn xa_hits_on_the_same_contig() {
    let xa = b"chr8,+42,100M,0;chr9,-7,100M,1;chr8,-1000,20M1I79M,2;";
    let hits = xa_hits(xa, b"chr8").unwrap();
    assert_eq!(hits, vec![(41, b"100M".to_vec()), (999, b"20M1I79M".to_vec())]);
    assert_eq!(xa_hits(xa, b"chr1").unwrap(), vec![]);
    // malformed entries are skipped
    assert_eq!(xa_hits(b"chr8,42,M100,0;chr8,5,3S97M,0;", b"chr8").unwrap(), vec![(4, b"3S97M".to_vec())]);
    // an entry without its terminating semicolon is not read
    assert_eq!(xa_hits(b"chr8,42,100M,0", b"chr8").unwrap(), vec![]);
    assert_eq!(xa_hits(b"chr8,0,100M,0;", b"chr8"), Err(XaError::InvalidPosition));
    assert_eq!(xa_hits(b"chr8,4294967297,100M,0;", b"chr8"), Err(XaError::InvalidPosition));
    assert!(parse_xa_entry(b"chr8,+42,100M,0").is_some());
    assert!(parse_xa_entry(b",+42,100M,0").is_none());
}
