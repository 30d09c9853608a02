use vstd::prelude::*;
use crate::observation::ObservationFormatError;

verus! {

/// An observation with its log probabilities quantized to 16 bits each.
#[derive(Clone, Copy, Debug, PartialEq, Eq, Structural)]
pub struct EncodedObservation {
    pub prob_mapping: u16,
    pub prob_alt: u16,
    pub prob_ref: u16,
    pub prob_missed_allele: u16,
    pub prob_sample_alt: u16,
    pub prob_double_overlap: u16,
    pub prob_any_strand: u16,
    pub forward_strand: bool,
    pub reverse_strand: bool,
}

/// The observations of a pileup field by field, as they are stored: one
/// INFO field per column.
#[derive(Clone, Debug)]
pub struct ObservationColumns {
    pub prob_mapping: Vec<u16>,
    pub prob_alt: Vec<u16>,
    pub prob_ref: Vec<u16>,
    pub prob_missed_allele: Vec<u16>,
    pub prob_sample_alt: Vec<u16>,
    pub prob_double_overlap: Vec<u16>,
    pub prob_any_strand: Vec<u16>,
    pub forward_strand: Vec<bool>,
    pub reverse_strand: Vec<bool>,
}

impl ObservationColumns {
    /// All columns have the length of the first.
    pub open spec fn is_rectangular(&self) -> bool {
        let n = self.prob_mapping@.len();
        &&& self.prob_alt@.len() == n
        &&& self.prob_ref@.len() == n
        &&& self.prob_missed_allele@.len() == n
        &&& self.prob_sample_alt@.len() == n
        &&& self.prob_double_overlap@.len() == n
        &&& self.prob_any_strand@.len() == n
        &&& self.forward_strand@.len() == n
        &&& self.reverse_strand@.len() == n
    }

    /// Whether the columns hold the given observations.
    pub open spec fn holds(&self, obs: Seq<EncodedObservation>) -> bool {
        &&& self.is_rectangular()
        &&& self.prob_mapping@.len() == obs.len()
        &&& forall|i: int| 0 <= i < obs.len() ==> self.row(i) == #[trigger] obs[i]
    }

    pub open spec fn row(&self, i: int) -> EncodedObservation {
        EncodedObservation {
            prob_mapping: self.prob_mapping@[i],
            prob_alt: self.prob_alt@[i],
            prob_ref: self.prob_ref@[i],
            prob_missed_allele: self.prob_missed_allele@[i],
            prob_sample_alt: self.prob_sample_alt@[i],
            prob_double_overlap: self.prob_double_overlap@[i],
            prob_any_strand: self.prob_any_strand@[i],
            forward_strand: self.forward_strand@[i],
            reverse_strand: self.reverse_strand@[i],
        }
    }
}

/// Split observations into columns, one per field.
pub fn to_columns(observations: &Vec<EncodedObservation>) -> (r: ObservationColumns)
    ensures
        r.holds(observations@),
{
    let mut c = ObservationColumns {
        prob_mapping: Vec::new(),
        prob_alt: Vec::new(),
        prob_ref: Vec::new(),
        prob_missed_allele: Vec::new(),
        prob_sample_alt: Vec::new(),
        prob_double_overlap: Vec::new(),
        prob_any_strand: Vec::new(),
        forward_strand: Vec::new(),
        reverse_strand: Vec::new(),
    };
    let mut i: usize = 0;
    while i < observations.len()
        invariant
            0 <= i <= observations@.len(),
            c.is_rectangular(),
            c.prob_mapping@.len() == i,
            forall|k: int| 0 <= k < i ==> c.row(k) == #[trigger] observations@[k],
        decreases observations@.len() - i,
    {
        let o = observations[i];
        c.prob_mapping.push(o.prob_mapping);
        c.prob_alt.push(o.prob_alt);
        c.prob_ref.push(o.prob_ref);
        c.prob_missed_allele.push(o.prob_missed_allele);
        c.prob_sample_alt.push(o.prob_sample_alt);
        c.prob_double_overlap.push(o.prob_double_overlap);
        c.prob_any_strand.push(o.prob_any_strand);
        c.forward_strand.push(o.forward_strand);
        c.reverse_strand.push(o.reverse_strand);
        i = i + 1;
    }
    c
}

/// Join columns into observations; columns of different lengths are not in
/// the observation format.
pub fn from_columns(columns: &ObservationColumns) -> (r: Result<Vec<EncodedObservation>, ObservationFormatError>)
    ensures
        columns.is_rectangular() ==> (r matches Ok(obs) && columns.holds(obs@)),
        !columns.is_rectangular() ==> r == Err::<Vec<EncodedObservation>, ObservationFormatError>(
            ObservationFormatError::InvalidObservationFormat,
        ),
{
    let n = columns.prob_mapping.len();
    if columns.prob_alt.len() != n || columns.prob_ref.len() != n || columns.prob_missed_allele.len() != n
        || columns.prob_sample_alt.len() != n || columns.prob_double_overlap.len() != n
        || columns.prob_any_strand.len() != n || columns.forward_strand.len() != n
        || columns.reverse_strand.len() != n {
        return Err(ObservationFormatError::InvalidObservationFormat);
    }
    let mut obs: Vec<EncodedObservation> = Vec::new();
    let mut i: usize = 0;
    while i < n
        invariant
            columns.is_rectangular(),
            n == columns.prob_mapping@.len(),
            0 <= i <= n,
            obs@.len() == i,
            forall|k: int| 0 <= k < i ==> columns.row(k) == #[trigger] obs@[k],
        decreases n - i,
    {
        obs.push(EncodedObservation {
            prob_mapping: columns.prob_mapping[i],
            prob_alt: columns.prob_alt[i],
            prob_ref: columns.prob_ref[i],
            prob_missed_allele: columns.prob_missed_allele[i],
            prob_sample_alt: columns.prob_sample_alt[i],
            prob_double_overlap: columns.prob_double_overlap[i],
            prob_any_strand: columns.prob_any_strand[i],
            forward_strand: columns.forward_strand[i],
            reverse_strand: columns.reverse_strand[i],
        });
        i = i + 1;
    }
    Ok(obs)
}

/// Splitting observations into columns and joining the columns again gives
/// back the same observations: columns that hold two sequences of
/// observations hold the same one.
pub proof fn lemma_columns_round_trip(
    columns: ObservationColumns,
    obs: Seq<EncodedObservation>,
    back: Seq<EncodedObservation>,
)
    requires
        columns.holds(obs),
        columns.holds(back),
    ensures
        back == obs,
{
    assert(back =~= obs);
}

} // verus!
