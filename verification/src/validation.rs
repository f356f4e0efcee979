//! Input validation for the metric pipeline.
//!
//! The pipeline either runs on well-shaped inputs or reports one descriptive
//! error before any per-point work begins: a shape mismatch between paired
//! position/color arrays, a neighborhood size outside its valid range, or a
//! neighborhood size exceeding what either cloud can supply.

use vstd::prelude::*;

verus! {

/// Why the pipeline refuses to run on a given input.
#[derive(Clone, Copy, Debug, PartialEq, Eq, Structural)]
pub enum QualityError {
    /// Paired position and color arrays differ in length.
    ShapeMismatch,
    /// The neighborhood size is below the smallest usable value.
    OutOfRange,
    /// The neighborhood size exceeds a cloud's point count.
    InsufficientNeighbors,
}

/// The smallest usable neighborhood: the local frame is estimated from a
/// sample covariance with denominator `n - 1`, so one point is never enough.
pub const MIN_SEARCH_SIZE: usize = 2;

/// What `validate_inputs` accepts: aligned pairs and a neighborhood size
/// both clouds can supply.
pub open spec fn inputs_valid(
    n_ref_points: usize,
    n_ref_colors: usize,
    n_dist_points: usize,
    n_dist_colors: usize,
    search_size: usize,
) -> bool {
    &&& n_ref_points == n_ref_colors
    &&& n_dist_points == n_dist_colors
    &&& search_size >= MIN_SEARCH_SIZE
    &&& search_size <= n_ref_points
    &&& search_size <= n_dist_points
}

/// Checks the pipeline preconditions, reporting the first violation in a
/// fixed order: shape mismatches, then a too-small neighborhood size, then a
/// neighborhood size no cloud can supply. Succeeds exactly on valid inputs.
pub fn validate_inputs(
    n_ref_points: usize,
    n_ref_colors: usize,
    n_dist_points: usize,
    n_dist_colors: usize,
    search_size: usize,
) -> (result: Result<(), QualityError>)
    ensures
        result is Ok <==> inputs_valid(
            n_ref_points,
            n_ref_colors,
            n_dist_points,
            n_dist_colors,
            search_size,
        ),
        result == Err::<(), QualityError>(QualityError::ShapeMismatch) <==> (n_ref_points
            != n_ref_colors || n_dist_points != n_dist_colors),
        result == Err::<(), QualityError>(QualityError::OutOfRange) <==> (n_ref_points
            == n_ref_colors && n_dist_points == n_dist_colors && search_size < MIN_SEARCH_SIZE),
        result == Err::<(), QualityError>(QualityError::InsufficientNeighbors) <==> (n_ref_points
            == n_ref_colors && n_dist_points == n_dist_colors && search_size >= MIN_SEARCH_SIZE && (
        search_size > n_ref_points || search_size > n_dist_points)),
{
    if n_ref_points != n_ref_colors || n_dist_points != n_dist_colors {
        Err(QualityError::ShapeMismatch)
    } else if search_size < MIN_SEARCH_SIZE {
        Err(QualityError::OutOfRange)
    } else if search_size > n_ref_points || search_size > n_dist_points {
        Err(QualityError::InsufficientNeighbors)
    } else {
        Ok(())
    }
}

} // verus!
