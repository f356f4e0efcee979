//! Verified core of a full-reference point-cloud quality metric.
//!
//! The metric compares a distorted point cloud against a reference cloud:
//! per-point neighborhoods are projected into locally estimated orthonormal
//! frames, reduced to a fixed-width feature record, turned into distortion
//! predictors, and pooled into one result vector.
//!
//! This crate holds the parts of that pipeline whose behaviour can be stated
//! and proved over plain values: input validation, point deduplication and
//! color preparation, the deterministic sign rule for estimated bases (over
//! the sign-magnitude bit encoding of the scalars), the fixed column layouts
//! of the feature and predictor records, and the pooling strategy selection
//! together with the rule that excludes not-a-number rows from pooling.
//! The floating-point evaluation itself (nearest-neighbor search, covariance
//! eigendecomposition, the predictor formulas) lives outside the verified
//! library, in the surrounding binary.

pub mod frame;
pub mod ieee;
pub mod layout;
pub mod pooling;
pub mod preprocessing;
pub mod validation;
