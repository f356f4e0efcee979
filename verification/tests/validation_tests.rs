use pointpca2::validation::{validate_inputs, QualityError, MIN_SEARCH_SIZE};

#[test]
fn accepts_typical_inputs() {
    assert_eq!(validate_inputs(100, 100, 80, 80, 9), Ok(()));
}

#[test]
fn accepts_maximal_neighborhood() {
    // The neighborhood may be as large as the smaller cloud.
    assert_eq!(validate_inputs(10, 10, 10, 10, 10), Ok(()));
    assert_eq!(validate_inputs(12, 12, 10, 10, 10), Ok(()));
}

#[test]
fn rejects_search_size_one() {
    // A single-point neighborhood would make the sample variance divide by
    // zero; it is rejected up front rather than computed.
    assert_eq!(
        validate_inputs(10, 10, 10, 10, 1),
        Err(QualityError::OutOfRange)
    );
}

#[test]
fn rejects_search_size_zero() {
    assert_eq!(
        validate_inputs(10, 10, 10, 10, 0),
        Err(QualityError::OutOfRange)
    );
}

#[test]
fn rejects_mismatched_reference_pair() {
    assert_eq!(
        validate_inputs(10, 9, 10, 10, 2),
        Err(QualityError::ShapeMismatch)
    );
}

#[test]
fn rejects_mismatched_distorted_pair() {
    assert_eq!(
        validate_inputs(10, 10, 9, 10, 2),
        Err(QualityError::ShapeMismatch)
    );
}

#[test]
fn rejects_oversized_neighborhood() {
    assert_eq!(
        validate_inputs(10, 10, 8, 8, 9),
        Err(QualityError::InsufficientNeighbors)
    );
    assert_eq!(
        validate_inputs(8, 8, 10, 10, 9),
        Err(QualityError::InsufficientNeighbors)
    );
}

#[test]
fn shape_mismatch_reported_before_range() {
    assert_eq!(
        validate_inputs(10, 9, 10, 10, 0),
        Err(QualityError::ShapeMismatch)
    );
}

#[test]
fn minimal_search_size_is_two() {
    assert_eq!(MIN_SEARCH_SIZE, 2);
    assert_eq!(validate_inputs(10, 10, 10, 10, 2), Ok(()));
}
