use vstd::prelude::*;

verus! {

/// Strand bias: all alternative reads come from one strand.
#[derive(Clone, Copy, Debug, PartialEq, Eq, Structural)]
pub enum StrandBias {
    NoBias,
    Forward,
    Reverse,
}

/// Read orientation bias: alternative fragments come in one orientation.
#[derive(Clone, Copy, Debug, PartialEq, Eq, Structural)]
pub enum ReadOrientationBias {
    NoBias,
    F1R2,
    F2R1,
}

/// Read position bias: alternative bases sit at one position of the reads.
#[derive(Clone, Copy, Debug, PartialEq, Eq, Structural)]
pub enum ReadPositionBias {
    NoBias,
    Biased,
}

/// Softclip bias: alternative reads are soft clipped.
#[derive(Clone, Copy, Debug, PartialEq, Eq, Structural)]
pub enum SoftclipBias {
    NoBias,
    Biased,
}

impl StrandBias {
    /// Whether this is a bias at all.
    pub fn is_some(&self) -> (r: bool)
        ensures
            r == !(*self is NoBias),
    {
        if let StrandBias::NoBias = self {
            false
        } else {
            true
        }
    }

    pub fn is_artifact(&self) -> (r: bool)
        ensures
            r == !(*self is NoBias),
    {
        self.is_some()
    }
}

impl ReadOrientationBias {
    pub fn is_artifact(&self) -> (r: bool)
        ensures
            r == !(*self is NoBias),
    {
        !matches!(self, ReadOrientationBias::NoBias)
    }
}

impl ReadPositionBias {
    pub fn is_artifact(&self) -> (r: bool)
        ensures
            r == !(*self is NoBias),
    {
        !matches!(self, ReadPositionBias::NoBias)
    }
}

impl SoftclipBias {
    pub fn is_artifact(&self) -> (r: bool)
        ensures
            r == !(*self is NoBias),
    {
        !matches!(self, SoftclipBias::NoBias)
    }
}

/// One combination of artifact biases.
#[derive(Clone, Copy, Debug, PartialEq, Eq, Structural)]
pub struct Biases {
    pub strand_bias: StrandBias,
    pub read_orientation_bias: ReadOrientationBias,
    pub read_position_bias: ReadPositionBias,
    pub softclip_bias: SoftclipBias,
}

pub open spec fn biases(
    sb: StrandBias,
    rob: ReadOrientationBias,
    rpb: ReadPositionBias,
    scb: SoftclipBias,
) -> Biases {
    Biases { strand_bias: sb, read_orientation_bias: rob, read_position_bias: rpb, softclip_bias: scb }
}

pub open spec fn none_spec() -> Biases {
    biases(StrandBias::NoBias, ReadOrientationBias::NoBias, ReadPositionBias::NoBias, SoftclipBias::NoBias)
}

impl Biases {
    /// Number of kinds of bias that this combination assumes.
    pub open spec fn n_artifacts(&self) -> nat {
        (if self.strand_bias is NoBias { 0nat } else { 1nat })
        + (if self.read_orientation_bias is NoBias { 0nat } else { 1nat })
        + (if self.read_position_bias is NoBias { 0nat } else { 1nat })
        + (if self.softclip_bias is NoBias { 0nat } else { 1nat })
    }

    /// Whether the combination only uses the kinds of bias that are considered.
    pub open spec fn within(&self, orientation: bool, strand: bool, position: bool, softclip: bool) -> bool {
        &&& (strand || self.strand_bias is NoBias)
        &&& (orientation || self.read_orientation_bias is NoBias)
        &&& (position || self.read_position_bias is NoBias)
        &&& (softclip || self.softclip_bias is NoBias)
    }

    /// The combinations with exactly one artifact among the considered kinds,
    /// in the order of the cartesian product of strand, orientation, position
    /// and softclip biases, each kind in declaration order.
    pub open spec fn artifact_combinations_spec(
        orientation: bool,
        strand: bool,
        position: bool,
        softclip: bool,
    ) -> Seq<Biases> {
        let n = StrandBias::NoBias;
        let o = ReadOrientationBias::NoBias;
        let p = ReadPositionBias::NoBias;
        let c = SoftclipBias::NoBias;
        (if softclip { seq![biases(n, o, p, SoftclipBias::Biased)] } else { seq![] })
        + (if position { seq![biases(n, o, ReadPositionBias::Biased, c)] } else { seq![] })
        + (if orientation {
            seq![biases(n, ReadOrientationBias::F1R2, p, c), biases(n, ReadOrientationBias::F2R1, p, c)]
        } else {
            seq![]
        })
        + (if strand {
            seq![biases(StrandBias::Forward, o, p, c), biases(StrandBias::Reverse, o, p, c)]
        } else {
            seq![]
        })
    }

    /// All combinations of biases with exactly one artifact, among the kinds
    /// of bias that are considered.
    pub fn all_artifact_combinations(
        consider_read_orientation_bias: bool,
        consider_strand_bias: bool,
        consider_read_position_bias: bool,
        consider_softclip_bias: bool,
    ) -> (r: Vec<Biases>)
        ensures
            r@ == Self::artifact_combinations_spec(
                consider_read_orientation_bias,
                consider_strand_bias,
                consider_read_position_bias,
                consider_softclip_bias,
            ),
            forall|i: int| 0 <= i < r@.len() ==> {
                &&& (#[trigger] r@[i]).n_artifacts() == 1
                &&& r@[i].within(
                    consider_read_orientation_bias,
                    consider_strand_bias,
                    consider_read_position_bias,
                    consider_softclip_bias,
                )
            },
            forall|b: Biases| b.n_artifacts() == 1 && #[trigger] b.within(
                consider_read_orientation_bias,
                consider_strand_bias,
                consider_read_position_bias,
                consider_softclip_bias,
            ) ==> r@.contains(b),
    {
        let mut r: Vec<Biases> = Vec::new();
        let n = StrandBias::NoBias;
        let o = ReadOrientationBias::NoBias;
        let p = ReadPositionBias::NoBias;
        let c = SoftclipBias::NoBias;
        if consider_softclip_bias {
            r.push(Biases { strand_bias: n, read_orientation_bias: o, read_position_bias: p, softclip_bias: SoftclipBias::Biased });
        }
        if consider_read_position_bias {
            r.push(Biases { strand_bias: n, read_orientation_bias: o, read_position_bias: ReadPositionBias::Biased, softclip_bias: c });
        }
        if consider_read_orientation_bias {
            r.push(Biases { strand_bias: n, read_orientation_bias: ReadOrientationBias::F1R2, read_position_bias: p, softclip_bias: c });
            r.push(Biases { strand_bias: n, read_orientation_bias: ReadOrientationBias::F2R1, read_position_bias: p, softclip_bias: c });
        }
        if consider_strand_bias {
            r.push(Biases { strand_bias: StrandBias::Forward, read_orientation_bias: o, read_position_bias: p, softclip_bias: c });
            r.push(Biases { strand_bias: StrandBias::Reverse, read_orientation_bias: o, read_position_bias: p, softclip_bias: c });
        }
        let ghost spec_r = Self::artifact_combinations_spec(
            consider_read_orientation_bias,
            consider_strand_bias,
            consider_read_position_bias,
            consider_softclip_bias,
        );
        assert(r@ =~= spec_r);
        assert forall|b: Biases| b.n_artifacts() == 1 && #[trigger] b.within(
            consider_read_orientation_bias,
            consider_strand_bias,
            consider_read_position_bias,
            consider_softclip_bias,
        ) implies r@.contains(b) by {
            let k = if !(b.softclip_bias is NoBias) {
                0int
            } else if !(b.read_position_bias is NoBias) {
                (if consider_softclip_bias { 1int } else { 0int })
            } else if b.read_orientation_bias is F1R2 {
                (if consider_softclip_bias { 1int } else { 0int }) + (if consider_read_position_bias { 1int } else { 0int })
            } else if b.read_orientation_bias is F2R1 {
                (if consider_softclip_bias { 1int } else { 0int }) + (if consider_read_position_bias { 1int } else { 0int }) + 1
            } else if b.strand_bias is Forward {
                (if consider_softclip_bias { 1int } else { 0int }) + (if consider_read_position_bias { 1int } else { 0int })
                    + (if consider_read_orientation_bias { 2int } else { 0int })
            } else {
                (if consider_softclip_bias { 1int } else { 0int }) + (if consider_read_position_bias { 1int } else { 0int })
                    + (if consider_read_orientation_bias { 2int } else { 0int }) + 1
            };
            assert(r@[k] == b);
        }
        r
    }

    /// The combination without any bias.
    pub fn none() -> (r: Biases)
        ensures
            r == none_spec(),
            r.n_artifacts() == 0,
    {
        Biases {
            strand_bias: StrandBias::NoBias,
            read_orientation_bias: ReadOrientationBias::NoBias,
            read_position_bias: ReadPositionBias::NoBias,
            softclip_bias: SoftclipBias::NoBias,
        }
    }

    /// Whether the combination assumes any artifact.
    pub fn is_artifact(&self) -> (r: bool)
        ensures
            r == (self.n_artifacts() > 0),
            r == (*self != none_spec()),
    {
        self.strand_bias.is_artifact() || self.read_orientation_bias.is_artifact()
            || self.read_position_bias.is_artifact() || self.softclip_bias.is_artifact()
    }
}

/// A named event over some allele frequency description `T`, with the strand
/// bias it assumes.
#[derive(Clone, Debug)]
pub struct Event<T> {
    pub name: String,
    pub vafs: T,
    pub strand_bias: StrandBias,
}

impl<T> Event<T> {
    /// Whether the event describes an artifact rather than a variant.
    pub fn is_artifact(&self) -> (r: bool)
        ensures
            r == !(self.strand_bias is NoBias),
    {
        self.strand_bias.is_some()
    }
}

/// What the likelihood of a bias needs to know of one observation: whether it
/// is strong (mapped with probability at least 0.95 and with strong
/// Kass-Raftery evidence for an allele), and whether it shows the bias pattern.
#[derive(Clone, Copy, Debug)]
pub struct BiasEvidence {
    pub is_strong: bool,
    pub shows_bias: bool,
}

pub open spec fn count_strong(s: Seq<BiasEvidence>) -> nat
    decreases s.len(),
{
    if s.len() == 0 {
        0
    } else {
        count_strong(s.drop_last()) + (if s.last().is_strong { 1nat } else { 0nat })
    }
}

pub open spec fn count_strong_biased(s: Seq<BiasEvidence>) -> nat
    decreases s.len(),
{
    if s.len() == 0 {
        0
    } else {
        count_strong_biased(s.drop_last())
            + (if s.last().is_strong && s.last().shows_bias { 1nat } else { 0nat })
    }
}

/// Minimum number of strong observations for a pileup to speak against a bias.
pub const MIN_STRONG_OBSERVATIONS: usize = 10;

/// A pileup makes a bias likely unless it holds enough strong observations,
/// fewer than two thirds of which show the bias pattern.
pub open spec fn pileup_supports_bias(s: Seq<BiasEvidence>) -> bool {
    count_strong(s) >= MIN_STRONG_OBSERVATIONS ==> 3 * count_strong_biased(s) >= 2 * count_strong(s)
}

/// Whether the pileup of one sample makes a bias likely.
pub fn pileup_is_likely(pileup: &Vec<BiasEvidence>) -> (r: bool)
    ensures
        r == pileup_supports_bias(pileup@),
{
    let mut strong: usize = 0;
    let mut biased: usize = 0;
    let mut i: usize = 0;
    while i < pileup.len()
        invariant
            0 <= i <= pileup@.len(),
            strong == count_strong(pileup@.subrange(0, i as int)),
            biased == count_strong_biased(pileup@.subrange(0, i as int)),
            biased <= strong <= i,
        decreases pileup@.len() - i,
    {
        let ghost prefix = pileup@.subrange(0, i as int + 1);
        assert(prefix.drop_last() =~= pileup@.subrange(0, i as int));
        let obs = pileup[i];
        if obs.is_strong {
            strong = strong + 1;
            if obs.shows_bias {
                biased = biased + 1;
            }
        }
        i = i + 1;
    }
    assert(pileup@.subrange(0, pileup@.len() as int) =~= pileup@);
    if strong >= MIN_STRONG_OBSERVATIONS {
        3 * (biased as u128) >= 2 * (strong as u128)
    } else {
        true
    }
}

/// Whether a bias is likely given the pileups of all samples: the absence of
/// bias always is; another bias when at least one pileup supports it.
pub fn is_likely(is_no_bias: bool, pileups: &Vec<Vec<BiasEvidence>>) -> (r: bool)
    ensures
        r == (is_no_bias || exists|k: int| 0 <= k < pileups@.len() && pileup_supports_bias(#[trigger] pileups@[k]@)),
{
    if is_no_bias {
        return true;
    }
    let mut k: usize = 0;
    while k < pileups.len()
        invariant
            0 <= k <= pileups@.len(),
            forall|j: int| 0 <= j < k ==> !pileup_supports_bias(#[trigger] pileups@[j]@),
        decreases pileups@.len() - k,
    {
        if pileup_is_likely(&pileups[k]) {
            return true;
        }
        k = k + 1;
    }
    false
}

} // verus!
