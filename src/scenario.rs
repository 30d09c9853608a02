use vstd::prelude::*;
use crate::variants::str_equals;

verus! {

/// Errors in a scenario and the files given for its samples.
#[derive(Clone, Copy, Debug, PartialEq, Eq, Structural)]
pub enum ScenarioError {
    /// The contamination of the sample with this index names an unknown sample.
    InvalidContaminationSampleName { sample: usize },
    /// No alignment file is given for the sample with this index.
    InvalidBAMSampleName { sample: usize },
}

/// The first index of `name` among `names`.
pub open spec fn index_of(names: Seq<String>, name: Seq<char>) -> Option<int>
    decreases names.len(),
{
    if names.len() == 0 {
        None
    } else {
        match index_of(names.drop_last(), name) {
            Some(i) => Some(i),
            None => if names.last()@ == name { Some(names.len() - 1) } else { None },
        }
    }
}

proof fn lemma_index_of(names: Seq<String>, name: Seq<char>)
    ensures
        index_of(names, name) matches Some(i) ==> 0 <= i < names.len() && names[i]@ == name
            && forall|j: int| 0 <= j < i ==> names[j]@ != name,
        index_of(names, name) is None ==> forall|j: int| 0 <= j < names.len() ==> names[j]@ != name,
    decreases names.len(),
{
    if names.len() > 0 {
        let prefix = names.drop_last();
        lemma_index_of(prefix, name);
        assert forall|j: int| 0 <= j < prefix.len() implies prefix[j] == names[j] by {}
    }
}

/// What is wrong with sample `i`, if anything: its contaminant must be a
/// sample of the scenario, and it must have an alignment file.
pub open spec fn sample_problem(
    names: Seq<String>,
    contaminants: Seq<Option<String>>,
    bam_names: Seq<String>,
    i: int,
) -> Option<ScenarioError> {
    if contaminants[i] matches Some(c) && index_of(names, c@) is None {
        Some(ScenarioError::InvalidContaminationSampleName { sample: i as usize })
    } else if index_of(bam_names, names[i]@) is None {
        Some(ScenarioError::InvalidBAMSampleName { sample: i as usize })
    } else {
        None
    }
}

fn find_name(names: &Vec<String>, name: &String) -> (r: Option<usize>)
    ensures
        match index_of(names@, name@) {
            Some(i) => r == Some(i as usize),
            None => r is None,
        },
{
    let mut i: usize = 0;
    while i < names.len()
        invariant
            0 <= i <= names@.len(),
            forall|j: int| 0 <= j < i ==> names@[j]@ != name@,
        decreases names@.len() - i,
    {
        if str_equals(names[i].as_str(), name.as_str()) {
            proof {
                lemma_index_of(names@, name@);
                if let Some(k) = index_of(names@, name@) {
                    if k > i {
                        assert(names@[i as int]@ != name@);
                    }
                }
            }
            return Some(i);
        }
        i = i + 1;
    }
    proof {
        lemma_index_of(names@, name@);
    }
    None
}

/// Resolve the contaminations of the samples of a scenario into sample
/// indices, checking that every sample has an alignment file. The first
/// sample with a problem gives the error.
pub fn resolve_samples(
    names: &Vec<String>,
    contaminants: &Vec<Option<String>>,
    bam_names: &Vec<String>,
) -> (r: Result<Vec<Option<usize>>, ScenarioError>)
    requires
        contaminants@.len() == names@.len(),
    ensures
        match r {
            Ok(v) => {
                &&& v@.len() == names@.len()
                &&& forall|i: int| 0 <= i < names@.len() ==> (#[trigger] sample_problem(names@, contaminants@, bam_names@, i)) is None
                &&& forall|i: int| 0 <= i < v@.len() ==> (#[trigger] v@[i]) == match contaminants@[i] {
                    Some(c) => Some(index_of(names@, c@)->Some_0 as usize),
                    None => None,
                }
            },
            Err(e) => exists|i: int| 0 <= i < names@.len() && {
                &&& (#[trigger] sample_problem(names@, contaminants@, bam_names@, i)) == Some(e)
                &&& forall|j: int| 0 <= j < i ==> (#[trigger] sample_problem(names@, contaminants@, bam_names@, j)) is None
            },
        },
{
    let mut v: Vec<Option<usize>> = Vec::new();
    let mut i: usize = 0;
    while i < names.len()
        invariant
            contaminants@.len() == names@.len(),
            0 <= i <= names@.len(),
            v@.len() == i,
            forall|j: int| 0 <= j < i ==> (#[trigger] sample_problem(names@, contaminants@, bam_names@, j)) is None,
            forall|j: int| 0 <= j < i ==> (#[trigger] v@[j]) == match contaminants@[j] {
                Some(c) => Some(index_of(names@, c@)->Some_0 as usize),
                None => None,
            },
        decreases names@.len() - i,
    {
        let contaminant = match &contaminants[i] {
            Some(c) => match find_name(names, c) {
                Some(k) => Some(k),
                None => {
                    assert(sample_problem(names@, contaminants@, bam_names@, i as int)
                        == Some(ScenarioError::InvalidContaminationSampleName { sample: i }));
                    return Err(ScenarioError::InvalidContaminationSampleName { sample: i });
                },
            },
            None => None,
        };
        if find_name(bam_names, &names[i]).is_none() {
            assert(sample_problem(names@, contaminants@, bam_names@, i as int)
                == Some(ScenarioError::InvalidBAMSampleName { sample: i }));
            return Err(ScenarioError::InvalidBAMSampleName { sample: i });
        }
        v.push(contaminant);
        i = i + 1;
    }
    Ok(v)
}

} // verus!
