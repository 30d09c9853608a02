use vstd::prelude::*;
use crate::bias::Biases;

verus! {

/// Number of grid points for integrating over a continuous allele frequency
/// range of a sample with `n_obs` observations and the given resolution: the
/// number of observations plus one, at least 5 and at most the resolution,
/// made odd for Simpson's rule.
pub open spec fn grid_points_spec(n_obs: int, resolution: int) -> int {
    let lo = if n_obs + 1 > 5 { n_obs + 1 } else { 5 };
    let n = if lo < resolution { lo } else { resolution };
    if n % 2 == 0 { n + 1 } else { n }
}

/// The posterior over events, which integrates over the allele frequencies
/// of each sample at a per-sample resolution.
#[derive(Clone, Debug)]
pub struct GenericPosterior {
    resolutions: Vec<usize>,
}

impl GenericPosterior {
    pub closed spec fn spec_resolutions(&self) -> Seq<usize> {
        self.resolutions@
    }

    pub fn new(resolutions: Vec<usize>) -> (r: GenericPosterior)
        ensures
            r.spec_resolutions() == resolutions@,
    {
        GenericPosterior { resolutions }
    }

    /// Grid points for each sample, given the pileups of the samples.
    pub fn grid_points<T>(&self, pileups: &Vec<Vec<T>>) -> (r: Vec<usize>)
        ensures
            r@.len() == if pileups@.len() < self.spec_resolutions().len() {
                pileups@.len()
            } else {
                self.spec_resolutions().len()
            },
            forall|i: int| 0 <= i < r@.len() ==> #[trigger] r@[i] as int == grid_points_spec(
                pileups@[i]@.len() as int,
                self.spec_resolutions()[i] as int,
            ),
    {
        let n = if pileups.len() < self.resolutions.len() { pileups.len() } else { self.resolutions.len() };
        let mut r: Vec<usize> = Vec::new();
        let mut i: usize = 0;
        while i < n
            invariant
                n <= pileups@.len(),
                n <= self.resolutions@.len(),
                n == pileups@.len() || n == self.resolutions@.len(),
                n <= pileups@.len() && n <= self.resolutions@.len(),
                (n == if pileups@.len() < self.resolutions@.len() { pileups@.len() } else { self.resolutions@.len() }),
                0 <= i <= n,
                r@.len() == i,
                forall|k: int| 0 <= k < i ==> #[trigger] r@[k] as int == grid_points_spec(
                    pileups@[k]@.len() as int,
                    self.resolutions@[k] as int,
                ),
            decreases n - i,
        {
            let n_obs = pileups[i].len();
            let res = self.resolutions[i];
            let mut g: usize = if n_obs >= res {
                res
            } else {
                let lo = if n_obs + 1 > 5 { n_obs + 1 } else { 5 };
                if lo < res { lo } else { res }
            };
            if g % 2 == 0 {
                g = g + 1;
            }
            r.push(g);
            i = i + 1;
        }
        r
    }
}

/// The flat prior: every event is equally likely a priori.
#[derive(Clone, Copy, Debug, Default)]
pub struct FlatPrior {}

impl FlatPrior {
    pub fn new() -> (r: FlatPrior)
        ensures
            r == (FlatPrior {}),
    {
        FlatPrior {}
    }
}

/// Key of a memoized likelihood of an uncontaminated sample: the allele
/// frequency (as the bits of its floating-point value) and the biases.
#[derive(Clone, Copy, Debug, PartialEq, Eq, Structural)]
pub struct SingleSampleKey {
    pub allele_freq_bits: u64,
    pub biases: Biases,
}

/// Key of a memoized likelihood of a contaminated sample: the allele
/// frequencies of the sample and of its contaminant, and the biases.
#[derive(Clone, Copy, Debug, PartialEq, Eq, Structural)]
pub struct ContaminatedSampleKey {
    pub primary_allele_freq_bits: u64,
    pub secondary_allele_freq_bits: u64,
    pub biases: Biases,
}

/// Key of a memoized likelihood.
#[derive(Clone, Copy, Debug, PartialEq, Eq, Structural)]
pub enum CacheKey {
    SingleSample(SingleSampleKey),
    ContaminatedSample(ContaminatedSampleKey),
}

/// Memoized likelihoods of one sample, by key.
pub struct LikelihoodCache<V> {
    entries: Vec<(CacheKey, V)>,
}

impl<V> LikelihoodCache<V> {
    pub closed spec fn view(&self) -> Map<CacheKey, V> {
        Map::new(
            |k: CacheKey| exists|i: int| 0 <= i < self.entries@.len() && self.entries@[i].0 == k,
            |k: CacheKey| self.entries@[choose|i: int| 0 <= i < self.entries@.len() && self.entries@[i].0 == k].1,
        )
    }

    pub closed spec fn wf(&self) -> bool {
        forall|i: int, j: int| 0 <= i < j < self.entries@.len()
            ==> (#[trigger] self.entries@[i]).0 != (#[trigger] self.entries@[j]).0
    }

    pub fn new() -> (r: Self)
        ensures
            r.wf(),
            r@ == Map::<CacheKey, V>::empty(),
    {
        let r = LikelihoodCache { entries: Vec::new() };
        assert(r@ =~= Map::<CacheKey, V>::empty());
        r
    }

    /// Whether the cache holds nothing.
    pub fn is_empty(&self) -> (r: bool)
        ensures
            r == (self@ == Map::<CacheKey, V>::empty()),
    {
        if self.entries.len() == 0 {
            assert(self@ =~= Map::<CacheKey, V>::empty());
            true
        } else {
            assert(self@.contains_key(self.entries@[0].0));
            false
        }
    }

    /// The memoized value under `key`.
    pub fn get(&self, key: &CacheKey) -> (r: Option<&V>)
        requires
            self.wf(),
        ensures
            self@.contains_key(*key) ==> r == Some(&self@[*key]),
            !self@.contains_key(*key) ==> r is None,
    {
        let mut i: usize = 0;
        while i < self.entries.len()
            invariant
                self.wf(),
                0 <= i <= self.entries@.len(),
                forall|k: int| 0 <= k < i ==> self.entries@[k].0 != *key,
            decreases self.entries@.len() - i,
        {
            if self.entries[i].0 == *key {
                let ghost j = choose|j: int| 0 <= j < self.entries@.len() && self.entries@[j].0 == *key;
                proof {
                    if j != i {
                        if j < i {
                            assert(self.entries@[j].0 != self.entries@[i as int].0);
                        } else {
                            assert(self.entries@[i as int].0 != self.entries@[j].0);
                        }
                    }
                }
                return Some(&self.entries[i].1);
            }
            i = i + 1;
        }
        None
    }

    /// Memoize `value` under a key that holds nothing yet.
    pub fn insert(&mut self, key: CacheKey, value: V)
        requires
            old(self).wf(),
            !old(self)@.contains_key(key),
        ensures
            final(self).wf(),
            final(self)@ == old(self)@.insert(key, value),
    {
        let ghost before = self.entries@;
        self.entries.push((key, value));
        let ghost after = self.entries@;
        assert forall|k: CacheKey| #[trigger] self@.contains_key(k) implies self@[k] == old(self)@.insert(key, value)[k] by {
            let j = choose|j: int| 0 <= j < after.len() && after[j].0 == k;
            if k == key {
                if j != after.len() - 1 {
                    assert(before[j].0 == key);
                }
            } else {
                assert(after[j] == before[j]);
                let j0 = choose|j0: int| 0 <= j0 < before.len() && before[j0].0 == k;
                if j0 != j {
                    if j0 < j {
                        assert(before[j0].0 != before[j].0);
                    } else {
                        assert(before[j].0 != before[j0].0);
                    }
                }
            }
        }
        assert forall|k: CacheKey| #[trigger] old(self)@.insert(key, value).contains_key(k) implies self@.contains_key(k) by {
            if k != key {
                let j0 = choose|j0: int| 0 <= j0 < before.len() && before[j0].0 == k;
                assert(after[j0] == before[j0]);
            } else {
                assert(after[after.len() - 1].0 == key);
            }
        }
        assert(self@ =~= old(self)@.insert(key, value));
    }
}

/// The likelihood cache of one sample.
pub enum CacheEntry<V> {
    ContaminatedSample(LikelihoodCache<V>),
    SingleSample(LikelihoodCache<V>),
}

impl<V> CacheEntry<V> {
    /// An empty cache for a contaminated or an uncontaminated sample.
    pub fn new(contaminated: bool) -> (r: CacheEntry<V>)
        ensures
            contaminated ==> (r matches CacheEntry::ContaminatedSample(c) && c.wf() && c@ == Map::<CacheKey, V>::empty()),
            !contaminated ==> (r matches CacheEntry::SingleSample(c) && c.wf() && c@ == Map::<CacheKey, V>::empty()),
    {
        if contaminated {
            CacheEntry::ContaminatedSample(LikelihoodCache::new())
        } else {
            CacheEntry::SingleSample(LikelihoodCache::new())
        }
    }
}

/// Contamination of a sample by the sample with index `by`, with the given
/// fraction of reads coming from it.
#[derive(Clone, Copy, Debug)]
pub struct Contamination<F> {
    pub by: usize,
    pub fraction: F,
}

/// The likelihood model of one sample.
#[derive(Clone, Copy, Debug)]
pub enum SampleModel<F> {
    /// A mixture of the sample's allele frequency and its contaminant's.
    Contaminated { by: usize, fraction: F },
    /// A sample without contamination.
    Normal,
}

/// The joint likelihood over all samples: one model per sample.
#[derive(Clone, Debug)]
pub struct GenericLikelihood<F> {
    inner: Vec<SampleModel<F>>,
}

impl<F: Copy> GenericLikelihood<F> {
    pub closed spec fn models(&self) -> Seq<SampleModel<F>> {
        self.inner@
    }

    /// One model per sample: contaminated where a contamination is given.
    pub fn new(contaminations: &Vec<Option<Contamination<F>>>) -> (r: GenericLikelihood<F>)
        ensures
            r.models().len() == contaminations@.len(),
            forall|i: int| 0 <= i < contaminations@.len() ==> (#[trigger] r.models()[i]) == match contaminations@[i] {
                Some(c) => SampleModel::Contaminated { by: c.by, fraction: c.fraction },
                None => SampleModel::Normal,
            },
    {
        let mut inner: Vec<SampleModel<F>> = Vec::new();
        let mut i: usize = 0;
        while i < contaminations.len()
            invariant
                0 <= i <= contaminations@.len(),
                inner@.len() == i,
                forall|k: int| 0 <= k < i ==> (#[trigger] inner@[k]) == match contaminations@[k] {
                    Some(c) => SampleModel::Contaminated { by: c.by, fraction: c.fraction },
                    None => SampleModel::Normal,
                },
            decreases contaminations@.len() - i,
        {
            let model = match &contaminations[i] {
                Some(c) => SampleModel::Contaminated { by: c.by, fraction: c.fraction },
                None => SampleModel::Normal,
            };
            inner.push(model);
            i = i + 1;
        }
        GenericLikelihood { inner }
    }

    /// The model of a sample.
    pub fn model(&self, sample: usize) -> (r: SampleModel<F>)
        requires
            sample < self.models().len(),
        ensures
            r == self.models()[sample as int],
    {
        self.inner[sample]
    }

    /// A fresh cache for each sample, of the kind its model uses.
    pub fn new_caches<V>(&self) -> (r: Vec<CacheEntry<V>>)
        ensures
            r@.len() == self.models().len(),
            forall|i: int| 0 <= i < r@.len() ==> match (#[trigger] r@[i]) {
                CacheEntry::ContaminatedSample(c) => self.models()[i] is Contaminated && c.wf() && c@ == Map::<CacheKey, V>::empty(),
                CacheEntry::SingleSample(c) => self.models()[i] is Normal && c.wf() && c@ == Map::<CacheKey, V>::empty(),
            },
    {
        let mut caches: Vec<CacheEntry<V>> = Vec::new();
        let mut i: usize = 0;
        while i < self.inner.len()
            invariant
                0 <= i <= self.inner@.len(),
                caches@.len() == i,
                forall|k: int| 0 <= k < i ==> match (#[trigger] caches@[k]) {
                    CacheEntry::ContaminatedSample(c) => self.inner@[k] is Contaminated && c.wf() && c@ == Map::<CacheKey, V>::empty(),
                    CacheEntry::SingleSample(c) => self.inner@[k] is Normal && c.wf() && c@ == Map::<CacheKey, V>::empty(),
                },
            decreases self.inner@.len() - i,
        {
            let contaminated = match self.inner[i] {
                SampleModel::Contaminated { .. } => true,
                SampleModel::Normal => false,
            };
            caches.push(CacheEntry::new(contaminated));
            i = i + 1;
        }
        caches
    }
}

} // verus!
