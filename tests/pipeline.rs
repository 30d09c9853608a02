use varlociraptor::breakend::{replacement_breakends, Breakend, BreakendError, ExtensionModification, Side};
use varlociraptor::ordering::{reorder, ReorderBuffer};
use varlociraptor::preprocessing::{breakend_calls, BreakendArena, BreakendIndex, BreakendStep};
use varlociraptor::record_buffer::{FillStart, RecordBuffer, RecordFlags};
use varlociraptor::reference::{ReferenceBuffer, DEFAULT_CAPACITY};

fn parse(spec: &str, mateid: Option<&str>) -> Result<Option<Breakend>, BreakendError> {
    Breakend::new(b"chr1".to_vec(), 99, b"G", spec.as_bytes(), b"bnd_u", mateid.map(|m| m.as_bytes().to_vec()))
}

#[test]
fn breakend_notation_variants() {
    let b = parse("G[chr2:321682[", Some("bnd_v")).unwrap().unwrap();
    assert_eq!(b.join.contig, b"chr2".to_vec());
    assert_eq!(b.join.pos, 321681);
    assert_eq!(b.join.side, Side::RightOfPos);
    assert_eq!(b.join.extension_modification, ExtensionModification::Unchanged);
    assert!(b.is_left_to_right);
    assert_eq!(b.replacement, b"G".to_vec());
    assert_eq!(b.mateid, b"bnd_v".to_vec());
    assert_eq!(b.id, b"bnd_u".to_vec());
    assert_eq!(b.pos, 99);

    let b = parse("G]chr17:198982]", Some("m")).unwrap().unwrap();
    assert_eq!(b.join.side, Side::LeftOfPos);
    assert_eq!(b.join.extension_modification, ExtensionModification::ReverseComplement);

    let b = parse("]chr13:123456]TG", Some("m")).unwrap().unwrap();
    assert_eq!(b.join.side, Side::LeftOfPos);
    assert_eq!(b.join.extension_modification, ExtensionModification::Unchanged);
    assert!(!b.is_left_to_right);
    assert_eq!(b.replacement, b"TG".to_vec());

    let b = parse("[chr2:321682[T", Some("m")).unwrap().unwrap();
    assert_eq!(b.join.side, Side::RightOfPos);
    assert_eq!(b.join.extension_modification, ExtensionModification::ReverseComplement);
}

#[test]
fn unsupported_and_invalid_breakends() {
    assert!(matches!(parse("G.", None), Ok(None)));
    assert!(matches!(parse(".G", None), Ok(None)));
    assert!(matches!(parse("<DEL>", Some("m")), Err(BreakendError::InvalidBNDRecordAlt)));
    assert!(matches!(parse("G[chr2:321682]", Some("m")), Err(BreakendError::InvalidBNDRecordAlt)));
    assert!(matches!(parse("G[chr2:0[", Some("m")), Err(BreakendError::InvalidBNDRecordAlt)));
    assert!(matches!(parse("G[chr2:12x[", Some("m")), Err(BreakendError::InvalidBNDRecordAlt)));
    assert!(matches!(parse("[chr2:5[", Some("m")), Err(BreakendError::InvalidBNDRecordAlt)));
    assert!(matches!(parse("G[chr2:5[T", Some("m")), Err(BreakendError::InvalidBNDRecordAlt)));
    assert!(matches!(parse("G[chr2:5[", None), Err(BreakendError::InvalidBNDRecordMateid)));
}

#[test]
fn breakend_index_finds_last_records() {
    let events = vec![Some(b"e1".to_vec()), None, Some(b"e2".to_vec()), Some(b"e1".to_vec())];
    let index = BreakendIndex::new(&events);
    assert_eq!(index.last_record_index(b"e1"), Some(3));
    assert_eq!(index.last_record_index(b"e2"), Some(2));
    assert_eq!(index.last_record_index(b"e3"), None);
}

#[test]
fn breakend_groups_complete_at_their_last_record() {
    let mut arena = BreakendArena::new();
    let first = parse("G[chr2:10[", Some("b")).unwrap();
    let second = parse("]chr1:100]T", Some("a")).unwrap();
    assert!(matches!(arena.push(b"ev", first, false), BreakendStep::Pending));
    match arena.push(b"ev", second, true) {
        BreakendStep::Complete(group) => {
            assert_eq!(group.len(), 2);
            assert_eq!(group[0].join.pos, 9);
            assert_eq!(group[1].join.pos, 99);
        },
        _ => panic!("expected a complete group"),
    }
    // an unsupported breakend rejects the whole event
    assert!(matches!(arena.push(b"other", None, false), BreakendStep::Rejected));
    let late = parse("G[chr2:10[", Some("b")).unwrap();
    assert!(matches!(arena.push(b"other", late, true), BreakendStep::Rejected));
}

#[test]
fn only_the_first_breakend_call_carries_observations() {
    let calls = breakend_calls(vec!["u", "v", "w"], vec![1, 2, 3]);
    assert_eq!(calls.len(), 3);
    assert_eq!(calls[0], ("u", Some(vec![1, 2, 3])));
    assert_eq!(calls[1], ("v", None));
    assert_eq!(calls[2], ("w", None));
    assert!(breakend_calls(Vec::<u8>::new(), 0).is_empty());
}

#[test]
fn reorder_buffer_hands_out_in_index_order() {
    let mut buffer = ReorderBuffer::new();
    buffer.push(1, "b");
    assert_eq!(buffer.pop(), None);
    buffer.push(0, "a");
    assert_eq!(buffer.pop(), Some("a"));
    assert_eq!(buffer.pop(), Some("b"));
    assert_eq!(buffer.pop(), None);
    buffer.push(3, "d");
    buffer.push(2, "c");
    assert_eq!(buffer.pop(), Some("c"));
    assert_eq!(buffer.pop(), Some("d"));
}

#[test]
fn thousand_records_keep_their_order() {
    // results arrive in a scrambled order, as from several workers
    let n = 1000usize;
    let bundles: Vec<(usize, usize)> = (0..n).map(|i| ((i * 7919) % n, (i * 7919) % n + 1)).collect();
    let out = reorder(bundles);
    assert_eq!(out.len(), n);
    for (k, item) in out.iter().enumerate() {
        assert_eq!(*item, k + 1);
    }
}

#[test]
fn record_buffer_refetches_and_trims() {
    let keep = RecordFlags { is_duplicate: false, is_unmapped: false, is_secondary: false };
    let dup = RecordFlags { is_duplicate: true, ..keep };
    let secondary = RecordFlags { is_secondary: true, ..keep };
    let mut buffer: RecordBuffer<&str> = RecordBuffer::new(10, false);
    assert_eq!(buffer.prepare(0, 100), FillStart::Fetch(89));
    assert!(buffer.offer(0, 90, &keep, "r1", 120));
    assert!(buffer.offer(0, 95, &dup, "dup", 120));
    assert!(buffer.offer(0, 96, &secondary, "sec", 120));
    assert!(buffer.offer(0, 130, &keep, "r2", 120));
    assert!(!buffer.offer(0, 131, &keep, "r3", 120));
    let records: Vec<&str> = buffer.iter().iter().map(|e| e.2).collect();
    assert_eq!(records, vec!["r1", "r2", "r3"]);
    // the next interval starts right of r1
    assert_eq!(buffer.prepare(0, 110), FillStart::Extend);
    let records: Vec<&str> = buffer.iter().iter().map(|e| e.2).collect();
    assert_eq!(records, vec!["r2", "r3"]);
    // another contig starts over
    assert_eq!(buffer.prepare(1, 5), FillStart::Fetch(0));
    assert!(buffer.iter().is_empty());
}

#[test]
fn reference_buffer_keeps_recent_contigs() {
    let mut buffer = ReferenceBuffer::new(DEFAULT_CAPACITY);
    assert_eq!(buffer.seq(b"chr1"), None);
    buffer.insert(b"chr1".to_vec(), b"ACGT".to_vec());
    buffer.insert(b"chr2".to_vec(), b"GG".to_vec());
    buffer.insert(b"chr3".to_vec(), b"TT".to_vec());
    // chr1 becomes the most recently used one
    assert_eq!(buffer.seq(b"chr1"), Some(&b"ACGT".to_vec()));
    buffer.insert(b"chr4".to_vec(), b"CC".to_vec());
    // chr2 was the least recently used
    assert_eq!(buffer.seq(b"chr2"), None);
    assert_eq!(buffer.seq(b"chr3"), Some(&b"TT".to_vec()));
    assert_eq!(buffer.seq(b"chr1"), Some(&b"ACGT".to_vec()));
    assert_eq!(buffer.seq(b"chr4"), Some(&b"CC".to_vec()));
}

#[test]
fn replacement_as_two_breakends() {
    let chrom = b"ACGTACGTAC".to_vec();
    // replace GTA at 2..5 by TT
    let (u, w) = replacement_breakends(&b"chr1".to_vec(), 2, 5, &b"TT".to_vec(), &chrom);
    assert_eq!(u.pos, 2);
    assert_eq!(u.ref_allele, b"G".to_vec());
    assert_eq!(u.replacement, b"TT".to_vec());
    assert_eq!(u.join.pos, 4);
    assert_eq!(u.join.side, Side::RightOfPos);
    assert!(u.is_left_to_right);
    assert_eq!((u.id.clone(), u.mateid.clone()), (b"u".to_vec(), b"w".to_vec()));
    assert_eq!(w.pos, 4);
    assert_eq!(w.ref_allele, b"C".to_vec());
    assert_eq!(w.replacement, b"TC".to_vec());
    assert_eq!(w.join.pos, 2);
    assert_eq!(w.join.side, Side::LeftOfPos);
    assert_eq!(w.join.extension_modification, ExtensionModification::Unchanged);
    assert!(!w.is_left_to_right);
    assert_eq!((w.id.clone(), w.mateid.clone()), (b"w".to_vec(), b"u".to_vec()));
}
