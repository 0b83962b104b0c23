use ols_adherence::{CountError, Field, ModelError, Weighting};

#[test]
fn messages_of_model_errors() {
    assert_eq!(
        ModelError::MissingDenominators { strategy: Weighting::N }.message(),
        "unsup_den required for N weighting"
    );
    assert_eq!(
        ModelError::MissingDenominators { strategy: Weighting::Binomial }.message(),
        "unsup_den required for binomial weighting"
    );
    assert_eq!(
        ModelError::SizeMismatch { field: Field::Response, expected: 2, found: 3 }.message(),
        "x and y lengths differ"
    );
    assert_eq!(
        ModelError::SizeMismatch { field: Field::Weights, expected: 2, found: 3 }.message(),
        "weights length mismatch"
    );
    assert_eq!(
        ModelError::SizeMismatch { field: Field::Denominators, expected: 2, found: 3 }.message(),
        "unsup_den length mismatch"
    );
    assert_eq!(
        ModelError::InsufficientData { found: 1 }.message(),
        "need at least 2 observations"
    );
    assert_eq!(ModelError::SingularDesign.message(), "singular design (no variation in x?)");
}

#[test]
fn labels_of_strategies() {
    assert_eq!(Weighting::Uniform.label(), "none");
    assert_eq!(Weighting::N.label(), "N");
    assert_eq!(Weighting::Binomial.label(), "binomial");
}

#[test]
fn messages_of_count_errors_are_those_of_std() {
    let empty = "".parse::<usize>().unwrap_err();
    let digit = "x".parse::<usize>().unwrap_err();
    let large = "99999999999999999999999999".parse::<usize>().unwrap_err();
    assert_eq!(CountError::Empty.message(), format!("{}", empty));
    assert_eq!(CountError::InvalidDigit.message(), format!("{}", digit));
    assert_eq!(CountError::TooLarge.message(), format!("{}", large));
}
