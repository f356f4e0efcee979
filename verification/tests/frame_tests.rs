use pointpca2::frame::{eigen_sign_correction, sort3_descending, svd_sign_correction};
use pointpca2::ieee::{abs_bits, is_nan, negate_bits};

fn bits(values: &[f64]) -> Vec<u64> {
    values.iter().map(|v| v.to_bits()).collect()
}

fn floats(bits: &[u64]) -> Vec<f64> {
    bits.iter().map(|&b| f64::from_bits(b)).collect()
}

/// An order-preserving encoding of a finite double into unsigned order, as
/// the surrounding binary computes it for eigenvalue keys.
fn order_key(v: f64) -> u64 {
    let b = v.to_bits();
    if b & 0x8000_0000_0000_0000 != 0 {
        !b
    } else {
        b | 0x8000_0000_0000_0000
    }
}

#[test]
fn negation_flips_the_sign_bit() {
    assert_eq!(f64::from_bits(negate_bits(1.5f64.to_bits())), -1.5);
    assert_eq!(f64::from_bits(negate_bits((-2.0f64).to_bits())), 2.0);
    assert_eq!(negate_bits(negate_bits(3.25f64.to_bits())), 3.25f64.to_bits());
}

#[test]
fn magnitude_drops_the_sign() {
    assert_eq!(abs_bits((-4.0f64).to_bits()), 4.0f64.to_bits());
    assert_eq!(abs_bits(4.0f64.to_bits()), 4.0f64.to_bits());
}

#[test]
fn nan_detection_on_bits() {
    assert!(is_nan(f64::NAN.to_bits()));
    assert!(is_nan((-f64::NAN).to_bits()));
    assert!(!is_nan(0.0f64.to_bits()));
    assert!(!is_nan(f64::INFINITY.to_bits()));
    assert!(!is_nan(f64::NEG_INFINITY.to_bits()));
}

#[test]
fn eigen_sign_correction_flips_negative_dominant_columns() {
    let columns = vec![bits(&[1.0, -3.0, 2.0]), bits(&[0.5, 0.25, 0.125])];
    let corrected = eigen_sign_correction(&columns);
    // First column: the entry of largest magnitude is -3.0, so the column
    // flips; second column: 0.5 is positive, so it stays.
    assert_eq!(floats(&corrected[0]), vec![-1.0, 3.0, -2.0]);
    assert_eq!(floats(&corrected[1]), vec![0.5, 0.25, 0.125]);
}

#[test]
fn eigen_sign_correction_breaks_magnitude_ties_on_the_last() {
    // 2.0 and -2.0 tie in magnitude; the later entry decides, so the
    // column flips.
    let columns = vec![bits(&[2.0, -2.0])];
    let corrected = eigen_sign_correction(&columns);
    assert_eq!(floats(&corrected[0]), vec![-2.0, 2.0]);
}

#[test]
fn sign_correction_is_idempotent() {
    let columns = vec![
        bits(&[2.0, -2.0]),
        bits(&[1.0, -3.0, 2.0]),
        bits(&[-0.5, 0.25, 0.5]),
        bits(&[0.0, -0.0]),
    ];
    let once = eigen_sign_correction(&columns);
    let twice = eigen_sign_correction(&once);
    assert_eq!(once, twice);
}

#[test]
fn svd_sign_correction_follows_the_dual_rows() {
    let u_columns = vec![bits(&[1.0, 2.0, 3.0]), bits(&[4.0, 5.0, 6.0])];
    let v_rows = vec![bits(&[0.5, -0.75, 0.25]), bits(&[0.5, 0.75, -0.25])];
    let (u_corrected, v_corrected) = svd_sign_correction(&u_columns, &v_rows);
    // Row 0 of the right factor is dominated by -0.75: flip row 0 and
    // column 0. Row 1 is dominated by 0.75: leave both.
    assert_eq!(floats(&u_corrected[0]), vec![-1.0, -2.0, -3.0]);
    assert_eq!(floats(&v_corrected[0]), vec![-0.5, 0.75, -0.25]);
    assert_eq!(floats(&u_corrected[1]), vec![4.0, 5.0, 6.0]);
    assert_eq!(floats(&v_corrected[1]), vec![0.5, 0.75, -0.25]);
}

#[test]
fn svd_sign_correction_is_idempotent() {
    let u_columns = vec![bits(&[1.0, 2.0, 3.0]), bits(&[4.0, 5.0, 6.0])];
    let v_rows = vec![bits(&[0.5, -0.75, 0.25]), bits(&[-0.5, 0.75, -0.25])];
    let (u1, v1) = svd_sign_correction(&u_columns, &v_rows);
    let (u2, v2) = svd_sign_correction(&u1, &v1);
    assert_eq!(u1, u2);
    assert_eq!(v1, v2);
}

#[test]
fn sort3_orders_descending() {
    assert_eq!(
        sort3_descending(&[order_key(1.0), order_key(3.0), order_key(2.0)]),
        [1, 2, 0]
    );
    assert_eq!(
        sort3_descending(&[order_key(3.0), order_key(2.0), order_key(1.0)]),
        [0, 1, 2]
    );
    assert_eq!(
        sort3_descending(&[order_key(-1.0), order_key(-3.0), order_key(2.0)]),
        [2, 0, 1]
    );
}

#[test]
fn sort3_keeps_original_order_on_ties() {
    assert_eq!(
        sort3_descending(&[order_key(2.0), order_key(2.0), order_key(1.0)]),
        [0, 1, 2]
    );
    assert_eq!(
        sort3_descending(&[order_key(1.0), order_key(2.0), order_key(2.0)]),
        [1, 2, 0]
    );
}
