use pointpca2::preprocessing::{
    key_less, mean_colors, preprocess_point_cloud, rgb_to_yuv, PointKey,
};

fn key(x: u64, y: u64, z: u64) -> PointKey {
    PointKey { x, y, z }
}

#[test]
fn rgb_to_yuv_black() {
    assert_eq!(rgb_to_yuv([0, 0, 0]), [0, 128, 128]);
}

#[test]
fn rgb_to_yuv_white() {
    // luma weights sum to 0.4974, so white maps to 127, not 255.
    assert_eq!(rgb_to_yuv([255, 255, 255]), [127, 128, 128]);
}

#[test]
fn rgb_to_yuv_mixed() {
    // r=10, g=20, b=30: luma 8.544 -> 9, chroma 134.146 -> 134 and
    // 122.512 -> 123.
    assert_eq!(rgb_to_yuv([10, 20, 30]), [9, 134, 123]);
}

#[test]
fn rgb_to_yuv_chroma_clamps_at_255() {
    // Pure blue pushes the first chroma channel to 255.5, which rounds to
    // 256 and clamps to 255.
    assert_eq!(rgb_to_yuv([0, 0, 255]), [18, 255, 116]);
}

#[test]
fn rgb_to_yuv_matches_float_formula() {
    // The verified integer arithmetic reproduces the double-precision
    // formula on these samples.
    for &(r, g, b) in &[(0u8, 0u8, 0u8), (255, 255, 255), (1, 2, 3), (200, 100, 50), (17, 93, 201)]
    {
        let rf = r as f64;
        let gf = g as f64;
        let bf = b as f64;
        let y = (0.2126 * rf + 0.2126 * gf + 0.0722 * bf).round().clamp(0.0, 255.0) as u8;
        let u = (-0.1146 * rf + -0.3854 * gf + 0.5000 * bf + 128.).round().clamp(0.0, 255.0) as u8;
        let v = (0.5000 * rf + -0.4542 * gf + -0.0468 * bf + 128.).round().clamp(0.0, 255.0) as u8;
        assert_eq!(rgb_to_yuv([r, g, b]), [y, u, v]);
    }
}

#[test]
fn mean_of_single_color_is_identity() {
    assert_eq!(mean_colors(vec![[1, 2, 3]]), [1, 2, 3]);
}

#[test]
fn mean_rounds_halves_up() {
    assert_eq!(mean_colors(vec![[0, 0, 0], [255, 255, 255]]), [128, 128, 128]);
    assert_eq!(mean_colors(vec![[0, 2, 4], [1, 3, 5]]), [1, 3, 5]);
}

#[test]
fn mean_of_equal_colors() {
    assert_eq!(mean_colors(vec![[7, 8, 9], [7, 8, 9], [7, 8, 9]]), [7, 8, 9]);
}

#[test]
fn key_order_is_lexicographic() {
    assert!(key_less(&key(1, 9, 9), &key(2, 0, 0)));
    assert!(key_less(&key(1, 1, 9), &key(1, 2, 0)));
    assert!(key_less(&key(1, 1, 1), &key(1, 1, 2)));
    assert!(!key_less(&key(1, 1, 1), &key(1, 1, 1)));
    assert!(!key_less(&key(2, 0, 0), &key(1, 9, 9)));
}

#[test]
fn preprocess_keeps_distinct_points_and_sorts() {
    let points = vec![key(3, 0, 0), key(1, 0, 0), key(2, 0, 0)];
    let colors = vec![[10, 10, 10], [20, 20, 20], [30, 30, 30]];
    let (out_points, out_colors) = preprocess_point_cloud(points, colors);
    assert_eq!(out_points, vec![key(1, 0, 0), key(2, 0, 0), key(3, 0, 0)]);
    assert_eq!(
        out_colors,
        vec![rgb_to_yuv([20, 20, 20]), rgb_to_yuv([30, 30, 30]), rgb_to_yuv([10, 10, 10])]
    );
}

#[test]
fn preprocess_merges_duplicates_with_mean_color() {
    let points = vec![key(2, 0, 0), key(1, 0, 0), key(2, 0, 0)];
    let colors = vec![[10, 10, 10], [20, 20, 20], [30, 30, 30]];
    let (out_points, out_colors) = preprocess_point_cloud(points, colors);
    assert_eq!(out_points, vec![key(1, 0, 0), key(2, 0, 0)]);
    // The duplicate point's colors average to [20, 20, 20] before the
    // color transform.
    assert_eq!(out_colors, vec![rgb_to_yuv([20, 20, 20]), rgb_to_yuv([20, 20, 20])]);
}

#[test]
fn preprocess_empty_cloud() {
    let (out_points, out_colors) = preprocess_point_cloud(vec![], vec![]);
    assert!(out_points.is_empty());
    assert!(out_colors.is_empty());
}

#[test]
fn preprocess_is_deterministic() {
    let points = vec![key(5, 5, 5), key(0, 1, 2), key(5, 5, 5), key(9, 0, 0), key(0, 1, 2)];
    let colors = vec![[1, 2, 3], [4, 5, 6], [7, 8, 9], [10, 11, 12], [13, 14, 15]];
    let first = preprocess_point_cloud(points.clone(), colors.clone());
    let second = preprocess_point_cloud(points, colors);
    assert_eq!(first.0, second.0);
    assert_eq!(first.1, second.1);
}

#[test]
fn preprocess_mean_rounding_matches_mean_colors() {
    let points = vec![key(1, 1, 1), key(1, 1, 1)];
    let colors = vec![[0, 0, 0], [255, 255, 255]];
    let (out_points, out_colors) = preprocess_point_cloud(points, colors);
    assert_eq!(out_points.len(), 1);
    assert_eq!(out_colors, vec![rgb_to_yuv(mean_colors(vec![[0, 0, 0], [255, 255, 255]]))]);
}
