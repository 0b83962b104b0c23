use ols_adherence::{check_design, degrees_of_freedom, Field, FitShape, ModelError};

#[test]
fn design_of_five_observations() {
    assert_eq!(check_design(5, 5, None), Ok(FitShape { n: 5, df: 3 }));
    assert_eq!(check_design(4, 4, Some(4)), Ok(FitShape { n: 4, df: 2 }));
}

#[test]
fn design_of_two_observations_keeps_one_degree() {
    assert_eq!(check_design(2, 2, Some(2)), Ok(FitShape { n: 2, df: 1 }));
    assert_eq!(check_design(3, 3, None), Ok(FitShape { n: 3, df: 1 }));
}

#[test]
fn degrees_of_freedom_is_floored_at_one() {
    assert_eq!(degrees_of_freedom(0), 1);
    assert_eq!(degrees_of_freedom(1), 1);
    assert_eq!(degrees_of_freedom(2), 1);
    assert_eq!(degrees_of_freedom(3), 1);
    assert_eq!(degrees_of_freedom(4), 2);
    assert_eq!(degrees_of_freedom(100), 98);
    assert_eq!(degrees_of_freedom(usize::MAX), usize::MAX - 2);
}

#[test]
fn design_refuses_unequal_lengths_first() {
    assert_eq!(
        check_design(1, 0, Some(7)),
        Err(ModelError::SizeMismatch { field: Field::Response, expected: 1, found: 0 })
    );
    assert_eq!(
        check_design(4, 5, None),
        Err(ModelError::SizeMismatch { field: Field::Response, expected: 4, found: 5 })
    );
}

#[test]
fn design_refuses_fewer_than_two_observations() {
    assert_eq!(check_design(0, 0, None), Err(ModelError::InsufficientData { found: 0 }));
    assert_eq!(check_design(1, 1, Some(3)), Err(ModelError::InsufficientData { found: 1 }));
}

#[test]
fn design_refuses_weights_of_another_length() {
    assert_eq!(
        check_design(3, 3, Some(2)),
        Err(ModelError::SizeMismatch { field: Field::Weights, expected: 3, found: 2 })
    );
    assert_eq!(
        check_design(3, 3, Some(4)),
        Err(ModelError::SizeMismatch { field: Field::Weights, expected: 3, found: 4 })
    );
}

#[test]
fn design_depends_on_lengths_alone() {
    for n in 2..40usize {
        let shape = check_design(n, n, None).unwrap();
        assert_eq!(shape.n, n);
        assert_eq!(shape.df, std::cmp::max(n as i64 - 2, 1) as usize);
        assert_eq!(check_design(n, n, Some(n)), Ok(shape));
    }
}
