use varlociraptor::columns::{from_columns, to_columns, EncodedObservation};
use varlociraptor::observation::{
    decode_values, encode_values, pack_bytes, unpack_values, Evidence, ObservationFormatError,
};

#[test]
fn values_round_trip() {
    let values: Vec<u16> = vec![0, 1, 255, 256, 32767, 32768, 65535, 1234];
    let raw = encode_values(&values);
    assert_eq!(decode_values(&raw), Ok(values));
}

#[test]
fn empty_values_round_trip() {
    let values: Vec<u16> = vec![];
    let raw = encode_values(&values);
    // the length prefix alone: eight zero bytes
    assert_eq!(raw, vec![0, 0, 0, 0]);
    assert_eq!(decode_values(&raw), Ok(values));
}

#[test]
fn encoding_is_length_prefixed_little_endian() {
    let raw = encode_values(&vec![0x0102, 0xfffe]);
    assert_eq!(raw, vec![2, 0, 0, 0, 0x0102, 0xfffe]);
    assert!(raw.iter().all(|v| *v < i32::MAX));
}

#[test]
fn odd_byte_lengths_are_padded() {
    assert_eq!(pack_bytes(vec![1, 2, 3]), vec![0x0201, 0x0003]);
    assert_eq!(unpack_values(&vec![0x0201, 0x0003]), vec![1, 2, 3, 0]);
    assert_eq!(pack_bytes(vec![]), Vec::<i32>::new());
}

#[test]
fn truncated_values_are_rejected() {
    // announces three values but carries one
    let raw = vec![3, 0, 0, 0, 7];
    assert_eq!(decode_values(&raw), Err(ObservationFormatError::InvalidObservationFormat));
    assert_eq!(decode_values(&vec![1]), Err(ObservationFormatError::InvalidObservationFormat));
}

#[test]
fn dummy_evidence() {
    match Evidence::dummy_alignment() {
        Evidence::Alignment(s) => assert_eq!(s, "Dummy-Alignment"),
        _ => panic!("expected alignment evidence"),
    }
    match Evidence::dummy_insert_size(312) {
        Evidence::InsertSize(s) => assert_eq!(s, "insert-size=312"),
        _ => panic!("expected insert size evidence"),
    }
    assert!(Evidence::dummy_alignment().is_alignment());
    assert!(!Evidence::dummy_insert_size(0).is_alignment());
}

#[test]
fn observations_round_trip_through_columns() {
    let obs = vec![
        EncodedObservation {
            prob_mapping: 1,
            prob_alt: 2,
            prob_ref: 3,
            prob_missed_allele: 4,
            prob_sample_alt: 5,
            prob_double_overlap: 6,
            prob_any_strand: 7,
            forward_strand: true,
            reverse_strand: false,
        },
        EncodedObservation {
            prob_mapping: 10,
            prob_alt: 20,
            prob_ref: 30,
            prob_missed_allele: 40,
            prob_sample_alt: 50,
            prob_double_overlap: 60,
            prob_any_strand: 70,
            forward_strand: false,
            reverse_strand: true,
        },
    ];
    let columns = to_columns(&obs);
    assert_eq!(columns.prob_ref, vec![3, 30]);
    assert_eq!(columns.reverse_strand, vec![false, true]);
    assert_eq!(from_columns(&columns), Ok(obs));
    let mut ragged = columns.clone();
    ragged.prob_alt.pop();
    assert_eq!(from_columns(&ragged), Err(ObservationFormatError::InvalidObservationFormat));
    assert_eq!(from_columns(&to_columns(&vec![])), Ok(vec![]));
}
