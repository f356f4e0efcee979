//! The fixed column layouts of the feature and predictor records.
//!
//! Every point yields one feature record of `FEATURE_WIDTH` scalars with a
//! fixed block layout, and one predictor record of `PREDICTOR_WIDTH` scalars
//! computed by a fixed ordered table of formula applications. Downstream
//! consumers depend on the layouts positionally, so they are stated here
//! once, with proofs that the predictor table writes every output column
//! exactly once and reads only existing feature columns. The floating-point
//! evaluation of each formula happens outside the verified library; the
//! table fixes which formula feeds which columns from which inputs.

use vstd::prelude::*;

verus! {

/// Width of one per-point feature record.
pub const FEATURE_WIDTH: usize = 42;

/// Width of one per-point predictor record.
pub const PREDICTOR_WIDTH: usize = 40;

// The feature record's fourteen three-wide blocks, in order: the reference
// and distorted points projected into the local frame; the reference color
// mean; the distorted geometry and color means; reference, distorted and
// cross variance statistics, each split into a geometry and a color block;
// and the three rows of the distorted neighborhood's own basis.
pub const COL_PROJECTION_REF: usize = 0;

pub const COL_PROJECTION_DIST: usize = 3;

pub const COL_COLOR_MEAN_REF: usize = 6;

pub const COL_GEOM_MEAN_DIST: usize = 9;

pub const COL_COLOR_MEAN_DIST: usize = 12;

pub const COL_GEOM_VARIANCE_REF: usize = 15;

pub const COL_COLOR_VARIANCE_REF: usize = 18;

pub const COL_GEOM_VARIANCE_DIST: usize = 21;

pub const COL_COLOR_VARIANCE_DIST: usize = 24;

pub const COL_GEOM_COVARIANCE: usize = 27;

pub const COL_COLOR_COVARIANCE: usize = 30;

pub const COL_BASIS_ROW_X: usize = 33;

pub const COL_BASIS_ROW_Y: usize = 36;

pub const COL_BASIS_ROW_Z: usize = 39;

/// The feature blocks tile the record: fourteen three-wide blocks, back to
/// back, ending exactly at the record's width.
pub proof fn lemma_feature_layout()
    ensures
        COL_PROJECTION_REF == 0,
        COL_PROJECTION_DIST == COL_PROJECTION_REF + 3,
        COL_COLOR_MEAN_REF == COL_PROJECTION_DIST + 3,
        COL_GEOM_MEAN_DIST == COL_COLOR_MEAN_REF + 3,
        COL_COLOR_MEAN_DIST == COL_GEOM_MEAN_DIST + 3,
        COL_GEOM_VARIANCE_REF == COL_COLOR_MEAN_DIST + 3,
        COL_COLOR_VARIANCE_REF == COL_GEOM_VARIANCE_REF + 3,
        COL_GEOM_VARIANCE_DIST == COL_COLOR_VARIANCE_REF + 3,
        COL_COLOR_VARIANCE_DIST == COL_GEOM_VARIANCE_DIST + 3,
        COL_GEOM_COVARIANCE == COL_COLOR_VARIANCE_DIST + 3,
        COL_COLOR_COVARIANCE == COL_GEOM_COVARIANCE + 3,
        COL_BASIS_ROW_X == COL_COLOR_COVARIANCE + 3,
        COL_BASIS_ROW_Y == COL_BASIS_ROW_X + 3,
        COL_BASIS_ROW_Z == COL_BASIS_ROW_Y + 3,
        FEATURE_WIDTH == COL_BASIS_ROW_Z + 3,
{
}

/// One formula application of the predictor bank. Column fields are feature
/// column indices; `width` is the number of paired columns a formula
/// consumes elementwise.
#[derive(Clone, Copy, Debug, PartialEq, Eq, Structural)]
pub enum PredictorOp {
    /// `1 - |x - y| / (|x| + |y| + eps)` on `width` paired columns.
    RelativeDifference { a: usize, b: usize, width: usize },
    /// `|sqrt(x) sqrt(y) - z| / (sqrt(x) sqrt(y) + eps)` on `width` paired
    /// variance columns against their measured covariance columns.
    CovarianceDifference { a: usize, b: usize, cov: usize, width: usize },
    /// Relative difference of the sums of `width` variance columns.
    VarianceSum { a: usize, b: usize, width: usize },
    /// Relative difference of the cube-rooted products of `width` variance
    /// columns.
    Omnivariance { a: usize, b: usize, width: usize },
    /// Relative difference of the entropies `sum x ln(x + eps)` over
    /// `width` variance columns.
    Entropy { a: usize, b: usize, width: usize },
    /// Euclidean norm of the difference of two `width`-column points.
    EuclideanDistance { a: usize, b: usize, width: usize },
    /// Absolute per-axis difference `|x[col] - y[col]|` of two projected
    /// points.
    ProjectedVectorDistance { a: usize, b: usize, col: usize },
    /// Absolute second and third coordinates of a projected point: its
    /// distances from the two planes orthogonal to the first principal
    /// axis. Two output columns.
    ProjectedPointDistances { a: usize },
    /// Euclidean norm of a `width`-column point: distance to the centroid.
    CentroidDistance { a: usize, width: usize },
    /// Relative difference of `(x[c1] - x[c2]) / (x[0] + eps)` between the
    /// two variance triples: anisotropy, planarity or linearity.
    AnisotropyPlanarityLinearity { a: usize, b: usize, c1: usize, c2: usize },
    /// Relative difference of `x[2] / (x[0] + x[1] + x[2] + eps)`.
    SurfaceVariation { a: usize, b: usize },
    /// Relative difference of `x[2] / (x[0] + eps)`.
    Sphericity { a: usize, b: usize },
    /// `1 - 2 acos(|x[1]| / (norm(x) + eps)) / pi` of one basis row.
    AngularSimilarity { a: usize },
    /// `1 - x[col]` of one basis row.
    Parallelity { a: usize, col: usize },
}

/// How many predictor columns one formula application writes.
pub open spec fn op_output_width(op: PredictorOp) -> int {
    match op {
        PredictorOp::RelativeDifference { width, .. } => width as int,
        PredictorOp::CovarianceDifference { width, .. } => width as int,
        PredictorOp::VarianceSum { .. } => 1,
        PredictorOp::Omnivariance { .. } => 1,
        PredictorOp::Entropy { .. } => 1,
        PredictorOp::EuclideanDistance { .. } => 1,
        PredictorOp::ProjectedVectorDistance { .. } => 1,
        PredictorOp::ProjectedPointDistances { .. } => 2,
        PredictorOp::CentroidDistance { .. } => 1,
        PredictorOp::AnisotropyPlanarityLinearity { .. } => 1,
        PredictorOp::SurfaceVariation { .. } => 1,
        PredictorOp::Sphericity { .. } => 1,
        PredictorOp::AngularSimilarity { .. } => 1,
        PredictorOp::Parallelity { .. } => 1,
    }
}

/// Whether a formula application reads only existing feature columns.
pub open spec fn op_inputs_ok(op: PredictorOp) -> bool {
    match op {
        PredictorOp::RelativeDifference { a, b, width } => 1 <= width && a + width
            <= FEATURE_WIDTH && b + width <= FEATURE_WIDTH,
        PredictorOp::CovarianceDifference { a, b, cov, width } => 1 <= width && a + width
            <= FEATURE_WIDTH && b + width <= FEATURE_WIDTH && cov + width <= FEATURE_WIDTH,
        PredictorOp::VarianceSum { a, b, width } => 1 <= width && a + width <= FEATURE_WIDTH && b
            + width <= FEATURE_WIDTH,
        PredictorOp::Omnivariance { a, b, width } => 1 <= width && a + width <= FEATURE_WIDTH && b
            + width <= FEATURE_WIDTH,
        PredictorOp::Entropy { a, b, width } => 1 <= width && a + width <= FEATURE_WIDTH && b
            + width <= FEATURE_WIDTH,
        PredictorOp::EuclideanDistance { a, b, width } => 1 <= width && a + width <= FEATURE_WIDTH
            && b + width <= FEATURE_WIDTH,
        PredictorOp::ProjectedVectorDistance { a, b, col } => col < 3 && a + 3 <= FEATURE_WIDTH && b
            + 3 <= FEATURE_WIDTH,
        PredictorOp::ProjectedPointDistances { a } => a + 3 <= FEATURE_WIDTH,
        PredictorOp::CentroidDistance { a, width } => 1 <= width && a + width <= FEATURE_WIDTH,
        PredictorOp::AnisotropyPlanarityLinearity { a, b, c1, c2 } => c1 < 3 && c2 < 3 && a + 3
            <= FEATURE_WIDTH && b + 3 <= FEATURE_WIDTH,
        PredictorOp::SurfaceVariation { a, b } => a + 3 <= FEATURE_WIDTH && b + 3 <= FEATURE_WIDTH,
        PredictorOp::Sphericity { a, b } => a + 3 <= FEATURE_WIDTH && b + 3 <= FEATURE_WIDTH,
        PredictorOp::AngularSimilarity { a } => a + 3 <= FEATURE_WIDTH,
        PredictorOp::Parallelity { a, col } => col < 3 && a + 3 <= FEATURE_WIDTH,
    }
}

/// One row of the predictor table: a formula application and the first
/// predictor column it writes.
#[derive(Clone, Copy, Debug, PartialEq, Eq, Structural)]
pub struct PredictorEntry {
    pub start: usize,
    pub op: PredictorOp,
}

/// The first column after an entry's output span.
pub open spec fn entry_end(e: PredictorEntry) -> int {
    e.start + op_output_width(e.op)
}

/// The table's output spans sit back to back: the first starts at column
/// zero, each next one where the previous ended, and the last ends at
/// `total`.
pub open spec fn table_chained(t: Seq<PredictorEntry>, total: int) -> bool {
    &&& t.len() > 0
    &&& t[0].start == 0
    &&& forall|i: int| 0 <= i < t.len() - 1 ==> (#[trigger] t[i + 1].start) as int == entry_end(
        t[i])
    &&& entry_end(t.last()) == total
}

/// Whether entry `i` of the table writes column `col`.
pub open spec fn entry_covers(t: Seq<PredictorEntry>, i: int, col: int) -> bool {
    0 <= i < t.len() && t[i].start <= col < entry_end(t[i])
}

/// In a chained table, earlier entries end before later entries begin.
proof fn lemma_entry_order(t: Seq<PredictorEntry>, total: int, i: int, j: int)
    requires
        table_chained(t, total),
        0 <= i < j < t.len(),
    ensures
        entry_end(t[i]) <= t[j].start,
    decreases j - i,
{
    if j > i + 1 {
        lemma_entry_order(t, total, i, j - 1);
        assert(t[(j - 1) + 1].start as int == entry_end(t[j - 1]));
    } else {
        assert(t[i + 1].start as int == entry_end(t[i]));
    }
}

/// EVERY PREDICTOR COLUMN IS WRITTEN. In a chained table, each output
/// column below the total is covered by some entry.
pub proof fn lemma_columns_covered(t: Seq<PredictorEntry>, total: int, col: int)
    requires
        table_chained(t, total),
        0 <= col < total,
    ensures
        exists|i: int| entry_covers(t, i, col),
    decreases t.len(),
{
    if col >= t.last().start {
        assert(entry_covers(t, t.len() - 1, col));
    } else {
        assert(t.len() >= 2);
        let prefix = t.drop_last();
        assert(prefix.last() == t[t.len() - 2]);
        assert(table_chained(prefix, t.last().start as int)) by {
            assert(prefix[0] == t[0]);
            assert forall|i: int| 0 <= i < prefix.len() - 1 implies (#[trigger] prefix[i
                + 1].start) as int == entry_end(prefix[i]) by {
                assert(prefix[i + 1] == t[i + 1]);
                assert(prefix[i] == t[i]);
                assert(t[i + 1].start as int == entry_end(t[i]));
            }
            assert(t[(t.len() - 2) + 1].start as int == entry_end(t[t.len() - 2]));
        }
        lemma_columns_covered(prefix, t.last().start as int, col);
        let i = choose|i: int| entry_covers(prefix, i, col);
        assert(entry_covers(t, i, col));
    }
}

/// NO PREDICTOR COLUMN IS WRITTEN TWICE. In a chained table, no column is
/// covered by two distinct entries.
pub proof fn lemma_columns_covered_once(t: Seq<PredictorEntry>, total: int, col: int, i: int, j: int)
    requires
        table_chained(t, total),
        entry_covers(t, i, col),
        entry_covers(t, j, col),
    ensures
        i == j,
{
    if i < j {
        lemma_entry_order(t, total, i, j);
    }
    if j < i {
        lemma_entry_order(t, total, j, i);
    }
}

/// Appends one formula application at the next free output column, keeping
/// the growing table chained.
fn push_entry(t: &mut Vec<PredictorEntry>, next: &mut usize, op: PredictorOp)
    requires
        op_inputs_ok(op),
        *old(next) + op_output_width(op) <= PREDICTOR_WIDTH,
        prefix_chained(old(t)@),
        next_free(old(t)@) == *old(next),
        forall|i: int| 0 <= i < old(t)@.len() ==> op_inputs_ok(#[trigger] old(t)@[i].op),
    ensures
        final(t)@ == old(t)@.push(PredictorEntry { start: *old(next), op }),
        final(t)@.len() == old(t)@.len() + 1,
        prefix_chained(final(t)@),
        next_free(final(t)@) == *final(next),
        *final(next) == *old(next) + op_output_width(op),
        forall|i: int| 0 <= i < final(t)@.len() ==> op_inputs_ok(#[trigger] final(t)@[i].op),
{
    let width: usize = match op {
        PredictorOp::RelativeDifference { width, .. } => width,
        PredictorOp::CovarianceDifference { width, .. } => width,
        PredictorOp::VarianceSum { .. } => 1,
        PredictorOp::Omnivariance { .. } => 1,
        PredictorOp::Entropy { .. } => 1,
        PredictorOp::EuclideanDistance { .. } => 1,
        PredictorOp::ProjectedVectorDistance { .. } => 1,
        PredictorOp::ProjectedPointDistances { .. } => 2,
        PredictorOp::CentroidDistance { .. } => 1,
        PredictorOp::AnisotropyPlanarityLinearity { .. } => 1,
        PredictorOp::SurfaceVariation { .. } => 1,
        PredictorOp::Sphericity { .. } => 1,
        PredictorOp::AngularSimilarity { .. } => 1,
        PredictorOp::Parallelity { .. } => 1,
    };
    let ghost prev = t@;
    t.push(PredictorEntry { start: *next, op });
    *next = *next + width;
    proof {
        assert forall|i: int| 0 <= i < t@.len() - 1 implies (#[trigger] t@[i + 1].start) as int
            == entry_end(t@[i]) by {
            if i < prev.len() - 1 {
                assert(t@[i] == prev[i]);
                assert(t@[i + 1] == prev[i + 1]);
                assert(prev[i + 1].start as int == entry_end(prev[i]));
            } else {
                assert(t@[i] == prev.last());
            }
        }
    }
}

/// The next free output column of a growing table.
spec fn next_free(t: Seq<PredictorEntry>) -> int {
    if t.len() == 0 {
        0
    } else {
        entry_end(t.last())
    }
}

/// A growing table whose spans so far sit back to back from column zero.
spec fn prefix_chained(t: Seq<PredictorEntry>) -> bool {
    &&& t.len() > 0 ==> t[0].start == 0
    &&& forall|i: int| 0 <= i < t.len() - 1 ==> (#[trigger] t[i + 1].start) as int == entry_end(
        t[i])
}

/// The predictor table's fixed content, entry by entry.
pub open spec fn predictor_layout() -> Seq<PredictorEntry> {
    seq![
        PredictorEntry {
            start: 0,
            op: PredictorOp::RelativeDifference {
                a: COL_COLOR_MEAN_REF,
                b: COL_COLOR_MEAN_DIST,
                width: 3,
            },
        },
        PredictorEntry {
            start: 3,
            op: PredictorOp::RelativeDifference {
                a: COL_COLOR_VARIANCE_REF,
                b: COL_COLOR_VARIANCE_DIST,
                width: 3,
            },
        },
        PredictorEntry {
            start: 6,
            op: PredictorOp::CovarianceDifference {
                a: COL_COLOR_VARIANCE_REF,
                b: COL_COLOR_VARIANCE_DIST,
                cov: COL_COLOR_COVARIANCE,
                width: 3,
            },
        },
        PredictorEntry {
            start: 9,
            op: PredictorOp::VarianceSum {
                a: COL_COLOR_VARIANCE_REF,
                b: COL_COLOR_VARIANCE_DIST,
                width: 3,
            },
        },
        PredictorEntry {
            start: 10,
            op: PredictorOp::Omnivariance {
                a: COL_COLOR_VARIANCE_REF,
                b: COL_COLOR_VARIANCE_DIST,
                width: 3,
            },
        },
        PredictorEntry {
            start: 11,
            op: PredictorOp::Entropy {
                a: COL_COLOR_VARIANCE_REF,
                b: COL_COLOR_VARIANCE_DIST,
                width: 3,
            },
        },
        PredictorEntry {
            start: 12,
            op: PredictorOp::EuclideanDistance {
                a: COL_PROJECTION_REF,
                b: COL_PROJECTION_DIST,
                width: 3,
            },
        },
        PredictorEntry {
            start: 13,
            op: PredictorOp::ProjectedVectorDistance {
                a: COL_PROJECTION_REF,
                b: COL_PROJECTION_DIST,
                col: 0,
            },
        },
        PredictorEntry {
            start: 14,
            op: PredictorOp::ProjectedVectorDistance {
                a: COL_PROJECTION_REF,
                b: COL_PROJECTION_DIST,
                col: 1,
            },
        },
        PredictorEntry {
            start: 15,
            op: PredictorOp::ProjectedVectorDistance {
                a: COL_PROJECTION_REF,
                b: COL_PROJECTION_DIST,
                col: 2,
            },
        },
        PredictorEntry { start: 16, op: PredictorOp::ProjectedPointDistances { a: COL_PROJECTION_REF } },
        PredictorEntry { start: 18, op: PredictorOp::CentroidDistance { a: COL_PROJECTION_DIST, width: 3 } },
        PredictorEntry { start: 19, op: PredictorOp::ProjectedPointDistances { a: COL_PROJECTION_DIST } },
        PredictorEntry { start: 21, op: PredictorOp::CentroidDistance { a: COL_GEOM_MEAN_DIST, width: 3 } },
        PredictorEntry { start: 22, op: PredictorOp::ProjectedPointDistances { a: COL_GEOM_MEAN_DIST } },
        PredictorEntry {
            start: 24,
            op: PredictorOp::RelativeDifference {
                a: COL_GEOM_VARIANCE_REF,
                b: COL_GEOM_VARIANCE_DIST,
                width: 3,
            },
        },
        PredictorEntry {
            start: 27,
            op: PredictorOp::CovarianceDifference {
                a: COL_GEOM_VARIANCE_REF,
                b: COL_GEOM_VARIANCE_DIST,
                cov: COL_GEOM_COVARIANCE,
                width: 3,
            },
        },
        PredictorEntry {
            start: 30,
            op: PredictorOp::Omnivariance {
                a: COL_GEOM_VARIANCE_REF,
                b: COL_GEOM_VARIANCE_DIST,
                width: 3,
            },
        },
        PredictorEntry {
            start: 31,
            op: PredictorOp::Entropy {
                a: COL_GEOM_VARIANCE_REF,
                b: COL_GEOM_VARIANCE_DIST,
                width: 3,
            },
        },
        PredictorEntry {
            start: 32,
            op: PredictorOp::AnisotropyPlanarityLinearity {
                a: COL_GEOM_VARIANCE_REF,
                b: COL_GEOM_VARIANCE_DIST,
                c1: 0,
                c2: 2,
            },
        },
        PredictorEntry {
            start: 33,
            op: PredictorOp::AnisotropyPlanarityLinearity {
                a: COL_GEOM_VARIANCE_REF,
                b: COL_GEOM_VARIANCE_DIST,
                c1: 1,
                c2: 2,
            },
        },
        PredictorEntry {
            start: 34,
            op: PredictorOp::AnisotropyPlanarityLinearity {
                a: COL_GEOM_VARIANCE_REF,
                b: COL_GEOM_VARIANCE_DIST,
                c1: 0,
                c2: 1,
            },
        },
        PredictorEntry {
            start: 35,
            op: PredictorOp::SurfaceVariation {
                a: COL_GEOM_VARIANCE_REF,
                b: COL_GEOM_VARIANCE_DIST,
            },
        },
        PredictorEntry {
            start: 36,
            op: PredictorOp::Sphericity { a: COL_GEOM_VARIANCE_REF, b: COL_GEOM_VARIANCE_DIST },
        },
        PredictorEntry { start: 37, op: PredictorOp::AngularSimilarity { a: COL_BASIS_ROW_Y } },
        PredictorEntry { start: 38, op: PredictorOp::Parallelity { a: COL_BASIS_ROW_X, col: 0 } },
        PredictorEntry { start: 39, op: PredictorOp::Parallelity { a: COL_BASIS_ROW_Z, col: 2 } },
    ]
}

/// The fixed layout's spans sit back to back over the whole record.
proof fn lemma_predictor_layout_chained()
    ensures
        table_chained(predictor_layout(), PREDICTOR_WIDTH as int),
{
    let t = predictor_layout();
    assert forall|i: int| 0 <= i < t.len() - 1 implies (#[trigger] t[i + 1].start) as int
        == entry_end(t[i]) by {
        assert(entry_end(t[i]) == t[i].start + op_output_width(t[i].op));
    }
}

/// EVERY PREDICTOR COLUMN OF THE FIXED LAYOUT IS FILLED EXACTLY ONCE: each
/// column of the predictor record is written by one and only one entry of
/// `predictor_layout`.
pub proof fn lemma_predictor_layout_fills_once(col: int)
    requires
        0 <= col < PREDICTOR_WIDTH,
    ensures
        exists|i: int| entry_covers(predictor_layout(), i, col),
        forall|i: int, j: int|
            entry_covers(predictor_layout(), i, col) && entry_covers(predictor_layout(), j, col)
                ==> i == j,
{
    lemma_predictor_layout_chained();
    lemma_columns_covered(predictor_layout(), PREDICTOR_WIDTH as int, col);
    assert forall|i: int, j: int|
        entry_covers(predictor_layout(), i, col) && entry_covers(
            predictor_layout(),
            j,
            col,
        ) implies i == j by {
        lemma_columns_covered_once(predictor_layout(), PREDICTOR_WIDTH as int, col, i, j);
    }
}

/// The fixed ordered predictor table: which formula writes which predictor
/// columns from which feature columns. The result is exactly
/// `predictor_layout`; its spans tile the record (the table is chained over
/// `PREDICTOR_WIDTH`) and every input is a feature column.
#[verifier::rlimit(100)]
pub fn predictor_table() -> (t: Vec<PredictorEntry>)
    ensures
        t@ == predictor_layout(),
        table_chained(t@, PREDICTOR_WIDTH as int),
        forall|i: int| 0 <= i < t@.len() ==> op_inputs_ok(#[trigger] t@[i].op),
        t@.len() == 27,
{
    let mut t: Vec<PredictorEntry> = Vec::new();
    let mut next: usize = 0;
    // Textural predictors: color means, then color variance statistics.
    push_entry(&mut t, &mut next, PredictorOp::RelativeDifference {
        a: COL_COLOR_MEAN_REF,
        b: COL_COLOR_MEAN_DIST,
        width: 3,
    });
    push_entry(&mut t, &mut next, PredictorOp::RelativeDifference {
        a: COL_COLOR_VARIANCE_REF,
        b: COL_COLOR_VARIANCE_DIST,
        width: 3,
    });
    push_entry(&mut t, &mut next, PredictorOp::CovarianceDifference {
        a: COL_COLOR_VARIANCE_REF,
        b: COL_COLOR_VARIANCE_DIST,
        cov: COL_COLOR_COVARIANCE,
        width: 3,
    });
    push_entry(&mut t, &mut next, PredictorOp::VarianceSum {
        a: COL_COLOR_VARIANCE_REF,
        b: COL_COLOR_VARIANCE_DIST,
        width: 3,
    });
    push_entry(&mut t, &mut next, PredictorOp::Omnivariance {
        a: COL_COLOR_VARIANCE_REF,
        b: COL_COLOR_VARIANCE_DIST,
        width: 3,
    });
    push_entry(&mut t, &mut next, PredictorOp::Entropy {
        a: COL_COLOR_VARIANCE_REF,
        b: COL_COLOR_VARIANCE_DIST,
        width: 3,
    });
    // Geometric predictors: distances between and of projected points.
    push_entry(&mut t, &mut next, PredictorOp::EuclideanDistance {
        a: COL_PROJECTION_REF,
        b: COL_PROJECTION_DIST,
        width: 3,
    });
    push_entry(&mut t, &mut next, PredictorOp::ProjectedVectorDistance {
        a: COL_PROJECTION_REF,
        b: COL_PROJECTION_DIST,
        col: 0,
    });
    push_entry(&mut t, &mut next, PredictorOp::ProjectedVectorDistance {
        a: COL_PROJECTION_REF,
        b: COL_PROJECTION_DIST,
        col: 1,
    });
    push_entry(&mut t, &mut next, PredictorOp::ProjectedVectorDistance {
        a: COL_PROJECTION_REF,
        b: COL_PROJECTION_DIST,
        col: 2,
    });
    push_entry(&mut t, &mut next, PredictorOp::ProjectedPointDistances { a: COL_PROJECTION_REF });
    push_entry(&mut t, &mut next, PredictorOp::CentroidDistance {
        a: COL_PROJECTION_DIST,
        width: 3,
    });
    push_entry(&mut t, &mut next, PredictorOp::ProjectedPointDistances { a: COL_PROJECTION_DIST });
    push_entry(&mut t, &mut next, PredictorOp::CentroidDistance {
        a: COL_GEOM_MEAN_DIST,
        width: 3,
    });
    push_entry(&mut t, &mut next, PredictorOp::ProjectedPointDistances { a: COL_GEOM_MEAN_DIST });
    // Geometric variance statistics and shape descriptors.
    push_entry(&mut t, &mut next, PredictorOp::RelativeDifference {
        a: COL_GEOM_VARIANCE_REF,
        b: COL_GEOM_VARIANCE_DIST,
        width: 3,
    });
    push_entry(&mut t, &mut next, PredictorOp::CovarianceDifference {
        a: COL_GEOM_VARIANCE_REF,
        b: COL_GEOM_VARIANCE_DIST,
        cov: COL_GEOM_COVARIANCE,
        width: 3,
    });
    push_entry(&mut t, &mut next, PredictorOp::Omnivariance {
        a: COL_GEOM_VARIANCE_REF,
        b: COL_GEOM_VARIANCE_DIST,
        width: 3,
    });
    push_entry(&mut t, &mut next, PredictorOp::Entropy {
        a: COL_GEOM_VARIANCE_REF,
        b: COL_GEOM_VARIANCE_DIST,
        width: 3,
    });
    push_entry(&mut t, &mut next, PredictorOp::AnisotropyPlanarityLinearity {
        a: COL_GEOM_VARIANCE_REF,
        b: COL_GEOM_VARIANCE_DIST,
        c1: 0,
        c2: 2,
    });
    push_entry(&mut t, &mut next, PredictorOp::AnisotropyPlanarityLinearity {
        a: COL_GEOM_VARIANCE_REF,
        b: COL_GEOM_VARIANCE_DIST,
        c1: 1,
        c2: 2,
    });
    push_entry(&mut t, &mut next, PredictorOp::AnisotropyPlanarityLinearity {
        a: COL_GEOM_VARIANCE_REF,
        b: COL_GEOM_VARIANCE_DIST,
        c1: 0,
        c2: 1,
    });
    push_entry(&mut t, &mut next, PredictorOp::SurfaceVariation {
        a: COL_GEOM_VARIANCE_REF,
        b: COL_GEOM_VARIANCE_DIST,
    });
    push_entry(&mut t, &mut next, PredictorOp::Sphericity {
        a: COL_GEOM_VARIANCE_REF,
        b: COL_GEOM_VARIANCE_DIST,
    });
    // Orientation descriptors over the distorted neighborhood's own basis.
    push_entry(&mut t, &mut next, PredictorOp::AngularSimilarity { a: COL_BASIS_ROW_Y });
    push_entry(&mut t, &mut next, PredictorOp::Parallelity { a: COL_BASIS_ROW_X, col: 0 });
    push_entry(&mut t, &mut next, PredictorOp::Parallelity { a: COL_BASIS_ROW_Z, col: 2 });
    proof {
        assert(next == PREDICTOR_WIDTH);
        assert(table_chained(t@, PREDICTOR_WIDTH as int));
        assert(t@ =~= predictor_layout());
    }
    t
}

} // verus!
