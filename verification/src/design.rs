//! The shape of a fit: how many observations, and how many degrees of
//! freedom they leave for the residual variance.

use vstd::prelude::*;
use crate::error::{Field, ModelError};

verus! {

/// What a fit of a line needs to know of its input besides the numbers.
#[derive(Debug, Clone, Copy, PartialEq, Eq, Structural)]
pub struct FitShape {
    /// The number of observations.
    pub n: usize,
    /// The divisor of the residual sum of squares.
    pub df: usize,
}

/// `n - 2`, and 1 where that would be less: two observations leave no degree
/// of freedom, and the variance estimate is then divided by 1 instead of 0.
pub open spec fn residual_df(n: int) -> int {
    if n - 2 >= 1 {
        n - 2
    } else {
        1
    }
}

/// What `check_design` returns on vectors of these lengths. The checks come
/// in this order: `x` against `y`, the count, then the weights.
pub open spec fn design_outcome(x_len: usize, y_len: usize, w_len: Option<usize>) -> Result<
    FitShape,
    ModelError,
> {
    if x_len != y_len {
        Err(ModelError::SizeMismatch { field: Field::Response, expected: x_len, found: y_len })
    } else if x_len < 2 {
        Err(ModelError::InsufficientData { found: x_len })
    } else if w_len is Some && w_len->0 != x_len {
        Err(ModelError::SizeMismatch { field: Field::Weights, expected: x_len, found: w_len->0 })
    } else {
        Ok(FitShape { n: x_len, df: residual_df(x_len as int) as usize })
    }
}

/// The degrees of freedom that `n` observations leave a line.
pub fn degrees_of_freedom(n: usize) -> (df: usize)
    ensures
        df == residual_df(n as int),
        df >= 1,
{
    if n > 2 {
        n - 2
    } else {
        1
    }
}

/// Checks the lengths of the predictors, the responses and the weights, if
/// there are any, before a single number is read.
pub fn check_design(x_len: usize, y_len: usize, w_len: Option<usize>) -> (r: Result<
    FitShape,
    ModelError,
>)
    ensures
        r == design_outcome(x_len, y_len, w_len),
{
    if x_len != y_len {
        return Err(
            ModelError::SizeMismatch { field: Field::Response, expected: x_len, found: y_len },
        );
    }
    if x_len < 2 {
        return Err(ModelError::InsufficientData { found: x_len });
    }
    match w_len {
        Some(k) => {
            if k != x_len {
                return Err(
                    ModelError::SizeMismatch { field: Field::Weights, expected: x_len, found: k },
                );
            }
        },
        None => {},
    }
    Ok(FitShape { n: x_len, df: degrees_of_freedom(x_len) })
}

} // verus!
