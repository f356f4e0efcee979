use pointpca2::layout::{
    predictor_table, PredictorOp, COL_BASIS_ROW_X, COL_BASIS_ROW_Y, COL_BASIS_ROW_Z,
    COL_COLOR_MEAN_DIST, COL_COLOR_MEAN_REF, FEATURE_WIDTH, PREDICTOR_WIDTH,
};

#[test]
fn record_widths() {
    assert_eq!(FEATURE_WIDTH, 42);
    assert_eq!(PREDICTOR_WIDTH, 40);
}

fn op_width(op: &PredictorOp) -> usize {
    match *op {
        PredictorOp::RelativeDifference { width, .. } => width,
        PredictorOp::CovarianceDifference { width, .. } => width,
        PredictorOp::ProjectedPointDistances { .. } => 2,
        _ => 1,
    }
}

#[test]
fn predictor_table_tiles_the_record() {
    let table = predictor_table();
    assert_eq!(table.len(), 27);
    let mut expected_start: usize = 0;
    for entry in &table {
        assert_eq!(entry.start, expected_start);
        expected_start += op_width(&entry.op);
    }
    assert_eq!(expected_start, PREDICTOR_WIDTH);
}

#[test]
fn every_predictor_column_written_exactly_once() {
    let table = predictor_table();
    let mut written = vec![0usize; PREDICTOR_WIDTH];
    for entry in &table {
        for col in entry.start..entry.start + op_width(&entry.op) {
            written[col] += 1;
        }
    }
    assert!(written.iter().all(|&count| count == 1));
}

#[test]
fn predictor_inputs_are_feature_columns() {
    for entry in predictor_table() {
        let cols: Vec<usize> = match entry.op {
            PredictorOp::RelativeDifference { a, b, width } => vec![a + width - 1, b + width - 1],
            PredictorOp::CovarianceDifference { a, b, cov, width } => {
                vec![a + width - 1, b + width - 1, cov + width - 1]
            }
            PredictorOp::VarianceSum { a, b, width }
            | PredictorOp::Omnivariance { a, b, width }
            | PredictorOp::Entropy { a, b, width }
            | PredictorOp::EuclideanDistance { a, b, width } => {
                vec![a + width - 1, b + width - 1]
            }
            PredictorOp::ProjectedVectorDistance { a, b, col } => vec![a + col, b + col],
            PredictorOp::ProjectedPointDistances { a } => vec![a + 2],
            PredictorOp::CentroidDistance { a, width } => vec![a + width - 1],
            PredictorOp::AnisotropyPlanarityLinearity { a, b, c1, c2 } => {
                vec![a + c1, a + c2, b + c1, b + c2]
            }
            PredictorOp::SurfaceVariation { a, b } | PredictorOp::Sphericity { a, b } => {
                vec![a + 2, b + 2]
            }
            PredictorOp::AngularSimilarity { a } => vec![a + 2],
            PredictorOp::Parallelity { a, col } => vec![a + col],
        };
        for col in cols {
            assert!(col < FEATURE_WIDTH);
        }
    }
}

#[test]
fn first_predictors_compare_color_means() {
    let table = predictor_table();
    assert_eq!(table[0].start, 0);
    assert_eq!(
        table[0].op,
        PredictorOp::RelativeDifference { a: COL_COLOR_MEAN_REF, b: COL_COLOR_MEAN_DIST, width: 3 }
    );
}

#[test]
fn orientation_predictors_close_the_record() {
    let table = predictor_table();
    assert_eq!(table[24].op, PredictorOp::AngularSimilarity { a: COL_BASIS_ROW_Y });
    assert_eq!(table[24].start, 37);
    assert_eq!(table[25].op, PredictorOp::Parallelity { a: COL_BASIS_ROW_X, col: 0 });
    assert_eq!(table[25].start, 38);
    assert_eq!(table[26].op, PredictorOp::Parallelity { a: COL_BASIS_ROW_Z, col: 2 });
    assert_eq!(table[26].start, 39);
}
