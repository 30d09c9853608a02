use varlociraptor::bias::{
    is_likely, pileup_is_likely, BiasEvidence, Biases, Event, ReadOrientationBias, ReadPositionBias, SoftclipBias,
    StrandBias,
};
use varlociraptor::posterior::{
    CacheEntry, CacheKey, Contamination, ContaminatedSampleKey, FlatPrior, GenericLikelihood, GenericPosterior,
    LikelihoodCache, SampleModel, SingleSampleKey,
};

#[test]
fn all_artifact_combinations_each_hold_one_artifact() {
    let all = Biases::all_artifact_combinations(true, true, true, true);
    assert_eq!(all.len(), 6);
    for b in &all {
        let n = [
            b.strand_bias.is_artifact(),
            b.read_orientation_bias.is_artifact(),
            b.read_position_bias.is_artifact(),
            b.softclip_bias.is_artifact(),
        ]
        .iter()
        .filter(|a| **a)
        .count();
        assert_eq!(n, 1);
        assert!(b.is_artifact());
    }
    assert_eq!(all[0].softclip_bias, SoftclipBias::Biased);
    assert_eq!(all[1].read_position_bias, ReadPositionBias::Biased);
    assert_eq!(all[2].read_orientation_bias, ReadOrientationBias::F1R2);
    assert_eq!(all[3].read_orientation_bias, ReadOrientationBias::F2R1);
    assert_eq!(all[4].strand_bias, StrandBias::Forward);
    assert_eq!(all[5].strand_bias, StrandBias::Reverse);
}

#[test]
fn artifact_combinations_of_selected_kinds() {
    assert!(Biases::all_artifact_combinations(false, false, false, false).is_empty());
    let strand = Biases::all_artifact_combinations(false, true, false, false);
    assert_eq!(strand.len(), 2);
    assert_eq!(strand[0].strand_bias, StrandBias::Forward);
    assert_eq!(strand[0].read_orientation_bias, ReadOrientationBias::NoBias);
    let orientation = Biases::all_artifact_combinations(true, false, false, false);
    assert_eq!(orientation.len(), 2);
    assert_eq!(orientation[1].read_orientation_bias, ReadOrientationBias::F2R1);
}

#[test]
fn no_bias_is_no_artifact() {
    let none = Biases::none();
    assert!(!none.is_artifact());
    assert_eq!(none.strand_bias, StrandBias::NoBias);
    assert!(!StrandBias::NoBias.is_some());
    assert!(StrandBias::Reverse.is_some());
    let event = Event { name: "somatic".to_string(), vafs: (), strand_bias: StrandBias::NoBias };
    assert!(!event.is_artifact());
    let artifact = Event { name: "artifact".to_string(), vafs: (), strand_bias: StrandBias::Forward };
    assert!(artifact.is_artifact());
}

fn pileup(strong: usize, strong_biased: usize, weak: usize) -> Vec<BiasEvidence> {
    let mut p = Vec::new();
    for i in 0..strong {
        p.push(BiasEvidence { is_strong: true, shows_bias: i < strong_biased });
    }
    for _ in 0..weak {
        p.push(BiasEvidence { is_strong: false, shows_bias: true });
    }
    p
}

#[test]
fn bias_likelihood_needs_two_thirds_of_strong_observations() {
    // too few strong observations: every bias is considered
    assert!(pileup_is_likely(&pileup(9, 0, 20)));
    assert!(pileup_is_likely(&pileup(30, 20, 0)));
    assert!(!pileup_is_likely(&pileup(30, 19, 0)));
    assert!(!is_likely(false, &vec![pileup(30, 0, 0), pileup(12, 7, 5)]));
    assert!(is_likely(false, &vec![pileup(30, 0, 0), pileup(12, 8, 0)]));
    assert!(is_likely(true, &vec![pileup(30, 0, 0)]));
    assert!(!is_likely(false, &vec![]));
}

#[test]
fn grid_points_are_odd_and_clamped() {
    let posterior = GenericPosterior::new(vec![100, 100, 100, 10, 4]);
    let pileups: Vec<Vec<u8>> = vec![vec![], vec![0; 5], vec![0; 30], vec![0; 30], vec![0; 30]];
    // 0 obs: at least 5; 5 obs: 6 made odd; 30 obs: 31; resolution 10 made odd; resolution 4 made odd
    assert_eq!(posterior.grid_points(&pileups), vec![5, 7, 31, 11, 5]);
    // fewer resolutions than samples: only those with both
    let short = GenericPosterior::new(vec![100]);
    assert_eq!(short.grid_points(&pileups), vec![5]);
}

#[test]
fn flat_prior_and_caches() {
    let _prior = FlatPrior::new();
    let key = CacheKey::SingleSample(SingleSampleKey { allele_freq_bits: 0.5f64.to_bits(), biases: Biases::none() });
    let other = CacheKey::ContaminatedSample(ContaminatedSampleKey {
        primary_allele_freq_bits: 0.5f64.to_bits(),
        secondary_allele_freq_bits: 0.0f64.to_bits(),
        biases: Biases::none(),
    });
    let mut cache: LikelihoodCache<f64> = LikelihoodCache::new();
    assert!(cache.is_empty());
    assert!(cache.get(&key).is_none());
    cache.insert(key, -1.5);
    cache.insert(other, -2.5);
    assert_eq!(cache.get(&key), Some(&-1.5));
    assert_eq!(cache.get(&other), Some(&-2.5));
    assert!(!cache.is_empty());
    match CacheEntry::<f64>::new(true) {
        CacheEntry::ContaminatedSample(c) => assert!(c.is_empty()),
        CacheEntry::SingleSample(_) => panic!("expected a cache for a contaminated sample"),
    }
    assert!(matches!(CacheEntry::<f64>::new(false), CacheEntry::SingleSample(_)));
}

#[test]
fn likelihood_models_follow_contaminations() {
    let contaminations = vec![Some(Contamination { by: 1, fraction: 0.25 }), None];
    let likelihood = GenericLikelihood::new(&contaminations);
    assert!(matches!(likelihood.model(0), SampleModel::Contaminated { by: 1, fraction } if fraction == 0.25));
    assert!(matches!(likelihood.model(1), SampleModel::Normal));
    let caches = likelihood.new_caches::<f64>();
    assert_eq!(caches.len(), 2);
    assert!(matches!(caches[0], CacheEntry::ContaminatedSample(_)));
    assert!(matches!(caches[1], CacheEntry::SingleSample(_)));
}
