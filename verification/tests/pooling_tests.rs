use pointpca2::pooling::{row_clean, valid_rows, Pool, PoolingTechnique};

#[test]
fn parses_every_strategy_name() {
    assert_eq!(
        PoolingTechnique::from_str("mean_pooling"),
        Some(PoolingTechnique::MeanPooling)
    );
    assert_eq!(
        PoolingTechnique::from_str("max_pooling"),
        Some(PoolingTechnique::MaxPooling)
    );
    assert_eq!(
        PoolingTechnique::from_str("min_pooling"),
        Some(PoolingTechnique::MinPooling)
    );
    assert_eq!(
        PoolingTechnique::from_str("median_pooling"),
        Some(PoolingTechnique::MedianPooling)
    );
}

#[test]
fn rejects_unknown_strategy_names() {
    assert_eq!(PoolingTechnique::from_str("mean"), None);
    assert_eq!(PoolingTechnique::from_str(""), None);
    assert_eq!(PoolingTechnique::from_str("mean_pooling "), None);
    assert_eq!(PoolingTechnique::from_str("MEAN_POOLING"), None);
}

#[test]
fn pool_carries_its_technique() {
    let pool = Pool::new("median_pooling").unwrap();
    assert_eq!(pool.technique(), PoolingTechnique::MedianPooling);
    assert!(Pool::new("average_pooling").is_none());
}

#[test]
fn clean_rows_have_no_nan() {
    let clean: Vec<u64> = vec![1.0f64.to_bits(), (-2.0f64).to_bits(), 0.0f64.to_bits()];
    let tainted: Vec<u64> = vec![1.0f64.to_bits(), f64::NAN.to_bits()];
    assert!(row_clean(&clean));
    assert!(!row_clean(&tainted));
    assert!(row_clean(&vec![]));
}

#[test]
fn pooling_excludes_nan_rows() {
    let rows: Vec<Vec<u64>> = vec![
        vec![1.0f64.to_bits(), 2.0f64.to_bits()],
        vec![f64::NAN.to_bits(), 3.0f64.to_bits()],
        vec![4.0f64.to_bits(), 5.0f64.to_bits()],
        vec![6.0f64.to_bits(), (-f64::NAN).to_bits()],
    ];
    assert_eq!(valid_rows(&rows), vec![0, 2]);
}

#[test]
fn pooling_keeps_infinite_rows() {
    // Only not-a-number sentinels are excluded; infinities are values.
    let rows: Vec<Vec<u64>> = vec![vec![f64::INFINITY.to_bits()], vec![f64::NEG_INFINITY.to_bits()]];
    assert_eq!(valid_rows(&rows), vec![0, 1]);
}

#[test]
fn pooling_of_empty_matrix_selects_nothing() {
    let rows: Vec<Vec<u64>> = vec![];
    assert_eq!(valid_rows(&rows), Vec::<usize>::new());
}
