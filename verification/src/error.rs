//! The ways in which a fit can be refused.

use vstd::prelude::*;
use vstd::string::StringExecFns;
use crate::weighting::Weighting;

verus! {

/// The input vector whose length was found wrong.
#[derive(Debug, Clone, Copy, PartialEq, Eq, Structural)]
pub enum Field {
    /// The responses `y`, held against the predictors `x`.
    Response,
    /// The weight vector, held against the observations.
    Weights,
    /// The denominators, held against the responses.
    Denominators,
}

/// Why no model comes out. Every error ends the attempt: the same input
/// gives the same error again.
#[derive(Debug, Clone, Copy, PartialEq, Eq, Structural)]
pub enum ModelError {
    /// The chosen weighting needs denominators and none were given.
    MissingDenominators { strategy: Weighting },
    /// Two vectors that run in parallel differ in length.
    SizeMismatch { field: Field, expected: usize, found: usize },
    /// Fewer than two observations.
    InsufficientData { found: usize },
    /// The weighted predictor has no variance to speak of.
    SingularDesign,
}

impl ModelError {
    /// The text of the message, as a sequence of characters.
    pub open spec fn message_text(self) -> Seq<char> {
        match self {
            ModelError::MissingDenominators { strategy } => "unsup_den required for "@
                + strategy.label_text() + " weighting"@,
            ModelError::SizeMismatch { field: Field::Response, .. } => "x and y lengths differ"@,
            ModelError::SizeMismatch { field: Field::Weights, .. } => "weights length mismatch"@,
            ModelError::SizeMismatch {
                field: Field::Denominators,
                ..
            } => "unsup_den length mismatch"@,
            ModelError::InsufficientData { .. } => "need at least 2 observations"@,
            ModelError::SingularDesign => "singular design (no variation in x?)"@,
        }
    }

    /// A one-line message for the user.
    pub fn message(&self) -> (text: String)
        ensures
            text@ == self.message_text(),
    {
        match self {
            ModelError::MissingDenominators { strategy } => {
                let head = String::from_str("unsup_den required for ");
                head.concat(strategy.label()).concat(" weighting")
            },
            ModelError::SizeMismatch { field: Field::Response, .. } => String::from_str(
                "x and y lengths differ",
            ),
            ModelError::SizeMismatch { field: Field::Weights, .. } => String::from_str(
                "weights length mismatch",
            ),
            ModelError::SizeMismatch { field: Field::Denominators, .. } => String::from_str(
                "unsup_den length mismatch",
            ),
            ModelError::InsufficientData { .. } => String::from_str(
                "need at least 2 observations",
            ),
            ModelError::SingularDesign => String::from_str(
                "singular design (no variation in x?)",
            ),
        }
    }
}

} // verus!
