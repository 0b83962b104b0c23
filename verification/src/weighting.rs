//! Weighting strategies, and the integer part of the weights they give.

use vstd::prelude::*;
use crate::error::{Field, ModelError};

verus! {

/// How observations are weighted in a fit.
#[derive(Debug, Clone, Copy, PartialEq, Eq, Structural)]
pub enum Weighting {
    /// Every observation counts once.
    Uniform,
    /// An observation counts as often as its denominator says.
    N,
    /// An observation counts by the inverse variance of a binomial
    /// proportion with its denominator as the number of trials.
    Binomial,
}

impl Weighting {
    /// The strategy's name in messages.
    pub open spec fn label_text(self) -> Seq<char> {
        match self {
            Weighting::Uniform => "none"@,
            Weighting::N => "N"@,
            Weighting::Binomial => "binomial"@,
        }
    }

    /// The strategy's name in messages.
    pub fn label(&self) -> (name: &'static str)
        ensures
            name@ == self.label_text(),
    {
        match self {
            Weighting::Uniform => "none",
            Weighting::N => "N",
            Weighting::Binomial => "binomial",
        }
    }

    /// Whether the strategy reads the denominators.
    pub open spec fn needs_denominators(self) -> bool {
        self != Weighting::Uniform
    }
}

/// What remains to be done to the responses to have the weights.
#[derive(Debug, PartialEq, Eq)]
pub enum WeightPlan {
    /// No weight vector: each observation has weight 1.
    Uniform,
    /// Observation `i` has weight `masses[i]`.
    Counts { masses: Vec<usize> },
    /// Observation `i` has weight `masses[i] / (p * (1 - p))`, where `p` is
    /// its response, kept a short way off 0 and 1.
    InverseVariance { masses: Vec<usize> },
}

/// A denominator as a weight: itself, and 1 where it is 0, so that no
/// observation is weighted away.
pub open spec fn mass(den: usize) -> usize {
    if den >= 1 {
        den
    } else {
        1
    }
}

/// The masses of a whole vector of denominators.
pub open spec fn masses_of(den: Seq<usize>) -> Seq<usize> {
    Seq::new(den.len(), |i: int| mass(den[i]))
}

/// No mass is 0, none is below its denominator, and there is one for each
/// denominator: whatever the denominators, a weight built on a mass has a
/// positive numerator.
pub proof fn lemma_masses_positive(den: Seq<usize>)
    ensures
        masses_of(den).len() == den.len(),
        forall|i: int|
            0 <= i < den.len() ==> (#[trigger] masses_of(den)[i]) >= 1 && masses_of(den)[i]
                >= den[i],
{
}

/// The mass of one denominator.
pub fn floor_mass(den: usize) -> (m: usize)
    ensures
        m == mass(den),
        m >= 1,
        m >= den,
{
    if den >= 1 {
        den
    } else {
        1
    }
}

fn floor_masses(den: &[usize]) -> (masses: Vec<usize>)
    ensures
        masses@ == masses_of(den@),
{
    let mut masses: Vec<usize> = Vec::new();
    let mut i: usize = 0;
    while i < den.len()
        invariant
            i <= den.len(),
            masses@ == masses_of(den@.take(i as int)),
        decreases den.len() - i,
    {
        masses.push(floor_mass(den[i]));
        assert(masses@ =~= masses_of(den@.take(i + 1)));
        i += 1;
    }
    assert(den@.take(den.len() as int) =~= den@);
    masses
}

/// A plan as a mathematical value.
pub enum PlanModel {
    Uniform,
    Counts { masses: Seq<usize> },
    InverseVariance { masses: Seq<usize> },
}

impl View for WeightPlan {
    type V = PlanModel;

    open spec fn view(&self) -> PlanModel {
        match self {
            WeightPlan::Uniform => PlanModel::Uniform,
            WeightPlan::Counts { masses } => PlanModel::Counts { masses: masses@ },
            WeightPlan::InverseVariance { masses } => PlanModel::InverseVariance {
                masses: masses@,
            },
        }
    }
}

/// The plan that a strategy gives for `n_obs` observations, or the reason
/// why it gives none.
///
/// `Uniform` asks for nothing. `N` and `Binomial` need the denominators;
/// `Binomial` also needs one for each response, since it reads the two side
/// by side.
pub open spec fn plan_outcome(n_obs: usize, den: Option<Seq<usize>>, strategy: Weighting) -> Result<
    PlanModel,
    ModelError,
> {
    match strategy {
        Weighting::Uniform => Ok(PlanModel::Uniform),
        Weighting::N => match den {
            None => Err(ModelError::MissingDenominators { strategy }),
            Some(d) => Ok(PlanModel::Counts { masses: masses_of(d) }),
        },
        Weighting::Binomial => match den {
            None => Err(ModelError::MissingDenominators { strategy }),
            Some(d) => if d.len() != n_obs {
                Err(
                    ModelError::SizeMismatch {
                        field: Field::Denominators,
                        expected: n_obs,
                        found: d.len() as usize,
                    },
                )
            } else {
                Ok(PlanModel::InverseVariance { masses: masses_of(d) })
            },
        },
    }
}

/// The denominators as a sequence, where there are any.
pub open spec fn denominators_view(unsup_den: Option<&[usize]>) -> Option<Seq<usize>> {
    match unsup_den {
        Some(d) => Some(d@),
        None => None,
    }
}

/// Turns a strategy and the denominators, where there are any, into the plan
/// for the weights of `n_obs` observations.
pub fn plan_weights(n_obs: usize, unsup_den: Option<&[usize]>, strategy: Weighting) -> (r: Result<
    WeightPlan,
    ModelError,
>)
    ensures
        match r {
            Ok(plan) => plan_outcome(n_obs, denominators_view(unsup_den), strategy) == Ok::<
                PlanModel,
                ModelError,
            >(plan@),
            Err(e) => plan_outcome(n_obs, denominators_view(unsup_den), strategy) == Err::<
                PlanModel,
                ModelError,
            >(e),
        },
{
    match strategy {
        Weighting::Uniform => Ok(WeightPlan::Uniform),
        Weighting::N => match unsup_den {
            None => Err(ModelError::MissingDenominators { strategy }),
            Some(den) => Ok(WeightPlan::Counts { masses: floor_masses(den) }),
        },
        Weighting::Binomial => match unsup_den {
            None => Err(ModelError::MissingDenominators { strategy }),
            Some(den) => {
                if den.len() != n_obs {
                    Err(
                        ModelError::SizeMismatch {
                            field: Field::Denominators,
                            expected: n_obs,
                            found: den.len(),
                        },
                    )
                } else {
                    Ok(WeightPlan::InverseVariance { masses: floor_masses(den) })
                }
            },
        },
    }
}

} // verus!
