use varlociraptor::cli::{parse_key_value, parse_key_values};
use varlociraptor::scenario::{resolve_samples, ScenarioError};
use varlociraptor::testcase::{TestcaseBuilder, TestcaseError};

#[test]
fn key_values() {
    let values = vec!["tumor=a.bam".to_string(), "normal=b.bam".to_string()];
    let pairs = parse_key_values(&values).unwrap();
    assert_eq!(pairs, vec![
        ("tumor".to_string(), "a.bam".to_string()),
        ("normal".to_string(), "b.bam".to_string()),
    ]);
    assert_eq!(parse_key_values(&vec!["tumor".to_string()]), None);
    assert_eq!(parse_key_values(&vec![]), Some(vec![]));
}

#[test]
fn key_value_edge_cases() {
    assert_eq!(parse_key_value("a=b="), Some(("a".to_string(), "b".to_string())));
    assert_eq!(parse_key_value("=b"), Some(("".to_string(), "b".to_string())));
    assert_eq!(parse_key_value("a=="), Some(("a".to_string(), "".to_string())));
    assert_eq!(parse_key_value("a="), None);
    assert_eq!(parse_key_value("a=b=c"), None);
    assert_eq!(parse_key_value(""), None);
    assert_eq!(parse_key_value("ü=ä"), Some(("ü".to_string(), "ä".to_string())));
}

#[test]
fn testcase_locus() {
    let b = TestcaseBuilder::new().locus("chr1:547").ok().unwrap();
    assert_eq!(b.chrom_name(), Some(&b"chr1".to_vec()));
    assert_eq!(b.pos(), Some(546));
    assert_eq!(b.idx(), Some(0));
    let b = b.register_bam("tumor", "tumor.bam").register_bam("normal", "normal.bam");
    let b = b.register_bam("tumor", "other.bam");
    assert_eq!(b.bam("tumor"), Some(&"other.bam".to_string()));
    assert_eq!(b.bam("normal"), Some(&"normal.bam".to_string()));
    assert_eq!(b.bam("relapse"), None);
    assert_eq!(b.pos(), Some(546));
    let b = TestcaseBuilder::new().locus("chrX:10:2").ok().unwrap();
    assert_eq!(b.chrom_name(), Some(&b"chrX".to_vec()));
    assert_eq!(b.pos(), Some(9));
    assert_eq!(b.idx(), Some(1));
    assert_eq!(TestcaseBuilder::new().locus("chr1").err(), Some(TestcaseError::InvalidLocus));
    assert_eq!(TestcaseBuilder::new().locus(":5").err(), Some(TestcaseError::InvalidLocus));
    assert_eq!(TestcaseBuilder::new().locus("chr1:").err(), Some(TestcaseError::InvalidLocus));
    assert_eq!(TestcaseBuilder::new().locus("chr1:5x").err(), Some(TestcaseError::InvalidLocus));
    assert_eq!(TestcaseBuilder::new().locus("chr1:5:").err(), Some(TestcaseError::InvalidLocus));
    assert_eq!(TestcaseBuilder::new().locus("chr1:0").err(), Some(TestcaseError::InvalidNumber));
    assert_eq!(TestcaseBuilder::new().locus("chr1:4294967296").err(), Some(TestcaseError::InvalidNumber));
    assert_eq!(TestcaseBuilder::new().locus("chr1:5:0").err(), Some(TestcaseError::InvalidNumber));
}

#[test]
fn scenario_samples_resolve() {
    let names = vec!["tumor".to_string(), "normal".to_string()];
    let bams = vec!["normal".to_string(), "tumor".to_string()];
    let contaminants = vec![Some("normal".to_string()), None];
    assert_eq!(resolve_samples(&names, &contaminants, &bams), Ok(vec![Some(1), None]));
    let unknown = vec![None, Some("relapse".to_string())];
    assert_eq!(
        resolve_samples(&names, &unknown, &bams),
        Err(ScenarioError::InvalidContaminationSampleName { sample: 1 })
    );
    let missing = vec!["tumor".to_string()];
    assert_eq!(
        resolve_samples(&names, &contaminants, &missing),
        Err(ScenarioError::InvalidBAMSampleName { sample: 1 })
    );
}
