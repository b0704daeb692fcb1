use rasterizer::fixed::{
    fx_add, fx_cos, fx_div, fx_divi, fx_mul, fx_neg, fx_sin, fx_sqrt, fx_sub, fx_tan, FX_HALF,
    FX_HALF_PI, FX_ONE, FX_PI,
};
use rasterizer::matrices::{Mat3x3, Mat4x4};
use rasterizer::renderer::{Camera, Transform};

#[test]
fn fixed_products_are_exact() {
    assert_eq!(fx_mul(2 * FX_ONE, 3 * FX_ONE), 6 * FX_ONE);
    assert_eq!(fx_mul(FX_HALF, FX_HALF), FX_ONE / 4);
    assert_eq!(fx_mul(-2 * FX_ONE, 3 * FX_ONE), -6 * FX_ONE);
    assert_eq!(fx_mul(FX_ONE, 12345), 12345);
}

#[test]
fn fixed_quotients_truncate_toward_zero() {
    assert_eq!(fx_div(6 * FX_ONE, 3 * FX_ONE), 2 * FX_ONE);
    assert_eq!(fx_div(FX_ONE, 2 * FX_ONE), FX_HALF);
    assert_eq!(fx_div(-FX_ONE, 2 * FX_ONE), -FX_HALF);
    assert_eq!(fx_divi(7, 2), 3);
    assert_eq!(fx_divi(-7, 2), -3);
}

#[test]
fn fixed_division_by_zero_saturates() {
    assert_eq!(fx_div(FX_ONE, 0), i64::MAX);
    assert_eq!(fx_div(-FX_ONE, 0), i64::MIN);
    assert_eq!(fx_div(0, 0), 0);
}

#[test]
fn fixed_sums_saturate() {
    assert_eq!(fx_add(i64::MAX, 1), i64::MAX);
    assert_eq!(fx_sub(i64::MIN, 1), i64::MIN);
    assert_eq!(fx_neg(i64::MIN), i64::MAX);
    assert_eq!(fx_add(2 * FX_ONE, 3 * FX_ONE), 5 * FX_ONE);
}

#[test]
fn fixed_square_root_is_exact_on_squares() {
    assert_eq!(fx_sqrt(4 * FX_ONE), 2 * FX_ONE);
    assert_eq!(fx_sqrt(9 * FX_ONE), 3 * FX_ONE);
    assert_eq!(fx_sqrt(FX_ONE), FX_ONE);
    assert_eq!(fx_sqrt(0), 0);
    assert_eq!(fx_sqrt(-5), 0);
}

#[test]
fn trigonometry_hits_the_axis_points() {
    assert_eq!(fx_sin(0), 0);
    assert_eq!(fx_cos(0), FX_ONE);
    // The polynomial approximation stays within a few thousandths of one.
    assert!((fx_sin(FX_HALF_PI) - FX_ONE).abs() < FX_ONE / 1000);
    assert!(fx_cos(FX_HALF_PI).abs() < FX_ONE / 1000);
    assert!((fx_sin(FX_PI)).abs() < FX_ONE / 1000);
    assert!((fx_cos(FX_PI) + FX_ONE).abs() < FX_ONE / 1000);
    // Angles fold into one turn.
    assert!((fx_sin(FX_PI * 2 + FX_HALF_PI) - fx_sin(FX_HALF_PI)).abs() < 16);
    assert!((fx_tan(0)).abs() < 16);
}

#[test]
fn matrix_product_with_identity() {
    let id = Mat4x4::new();
    let m = Mat4x4 {
        mat: [
            [FX_ONE, 2 * FX_ONE, 0, 0],
            [0, FX_ONE, 0, 5 * FX_ONE],
            [0, 0, FX_ONE, 0],
            [0, 0, 0, FX_ONE],
        ],
    };
    let p = m.mul_mat(&id);
    assert_eq!(p.mat, m.mat);
    let q = id.mul_mat(&m);
    assert_eq!(q.mat, m.mat);
    let v = id.mul_vec([FX_ONE, 2 * FX_ONE, 3 * FX_ONE, FX_ONE]);
    assert_eq!(v, [FX_ONE, 2 * FX_ONE, 3 * FX_ONE, FX_ONE]);
}

#[test]
fn matrix_inverse_of_diagonal() {
    let m = Mat3x3 { mat: [[2 * FX_ONE, 0, 0], [0, 4 * FX_ONE, 0], [0, 0, FX_ONE]] };
    assert_eq!(m.determinant(), 8 * FX_ONE);
    let inv = m.inverse();
    assert_eq!(inv.mat[0][0], FX_HALF);
    assert_eq!(inv.mat[1][1], FX_ONE / 4);
    assert_eq!(inv.mat[2][2], FX_ONE);
    assert_eq!(inv.mat[0][1], 0);
}

#[test]
fn matrix_transpose_swaps_entries() {
    let m = Mat3x3 { mat: [[1, 2, 3], [4, 5, 6], [7, 8, 9]] };
    let t = m.transpose();
    assert_eq!(t.mat, [[1, 4, 7], [2, 5, 8], [3, 6, 9]]);
    let mut s = Mat3x3 { mat: [[1, 2, 3], [4, 5, 6], [7, 8, 9]] };
    s.swap(1, 0, 0, 1);
    assert_eq!(s.mat[0][1], 4);
    assert_eq!(s.mat[1][0], 2);
}

#[test]
fn identity_transform_keeps_points() {
    let transform = Transform::new(
        (0, 0, 0),
        (FX_ONE, FX_ONE, FX_ONE),
        0,
        (3355443, 5033165, 6710886),
    );
    let m = transform.matrix();
    let v = [7 * FX_ONE, -3 * FX_ONE, FX_HALF, FX_ONE];
    assert_eq!(m.mul_vec(v), v);
}

#[test]
fn rotation_changes_recombine_the_matrix() {
    let mut transform = Transform::new(
        (0, 0, 0),
        (FX_ONE, FX_ONE, FX_ONE),
        FX_HALF_PI,
        (0, 0, FX_ONE),
    );
    // A quarter turn about the z axis sends x roughly to y.
    let m = transform.matrix();
    let v = m.mul_vec([FX_ONE, 0, 0, FX_ONE]);
    assert!(v[0].abs() < FX_ONE / 500);
    assert!((v[1] - FX_ONE).abs() < FX_ONE / 500);
    transform.set_rotation(0);
    let back = transform.matrix();
    let w = back.mul_vec([FX_ONE, 0, 0, FX_ONE]);
    assert_eq!(w, [FX_ONE, 0, 0, FX_ONE]);
    assert_eq!(transform.rotation(), 0);
}

#[test]
fn camera_maps_near_plane_center_to_minus_one() {
    // near 1.0 and far 3.0 divide exactly, so the projection of the near
    // plane's center lands on minus one to the bit.
    let camera = Camera::new(FX_ONE, 3 * FX_ONE, 17571179, FX_ONE);
    let m = camera.matrix();
    let t = m.mul_vec([0, 0, -FX_ONE, FX_ONE]);
    assert_eq!(fx_div(t[2], t[3]), -FX_ONE);
}

#[test]
fn camera_near_plane_center_within_tolerance() {
    // With planes that do not divide exactly the value stays within a few
    // thousandths of minus one.
    let camera = Camera::new(FX_ONE / 10, 100 * FX_ONE, 17571179, FX_ONE);
    let m = camera.matrix();
    let t = m.mul_vec([0, 0, -FX_ONE / 10, FX_ONE]);
    let z = fx_div(t[2], t[3]);
    assert!((z + FX_ONE).abs() < FX_ONE / 1000);
}
