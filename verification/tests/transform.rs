use rusto::fixed::{fp_add, fp_mul, fp_recip, FP_ONE};
use rusto::math::{mat4_transform_point, QuatFp, Vec3Fp};
use rusto::transform::Transform;

#[test]
fn fixed_point_arithmetic_is_exact() {
    // 2.0 * 3.0 == 6.0
    assert_eq!(fp_mul(2 * FP_ONE, 3 * FP_ONE), Some(6 * FP_ONE));
    // 0.5 * 0.5 == 0.25
    assert_eq!(fp_mul(FP_ONE / 2, FP_ONE / 2), Some(FP_ONE / 4));
    // signs
    assert_eq!(fp_mul(-2 * FP_ONE, 3 * FP_ONE), Some(-6 * FP_ONE));
    assert_eq!(fp_add(FP_ONE, FP_ONE), Some(2 * FP_ONE));
    // overflow is reported, not wrapped
    assert_eq!(fp_mul(i32::MAX, i32::MAX), None);
    // reciprocal: 1 / 2.0 == 0.5; 1 / 0 is an error
    assert_eq!(fp_recip(2 * FP_ONE), Some(FP_ONE / 2));
    assert_eq!(fp_recip(0), None);
}

#[test]
fn identity_composes_as_a_unit_on_both_sides() {
    // identity() + T == T and T + identity() == T
    let t = Transform::new(
        Vec3Fp::new(3 * FP_ONE, -2 * FP_ONE, FP_ONE / 2),
        QuatFp::new(FP_ONE / 2, FP_ONE / 4, -FP_ONE / 8, 1234),
        Vec3Fp::new(2 * FP_ONE, FP_ONE, 3 * FP_ONE),
    );
    let id = Transform::identity();
    let left = id.compose(&t).unwrap();
    let right = t.compose(&id).unwrap();
    assert_eq!(left, t);
    assert_eq!(right, t);
}

#[test]
fn composition_combines_positions_rotations_and_scales() {
    let a = Transform::new(
        Vec3Fp::new(FP_ONE, 0, 0),
        QuatFp::new(FP_ONE, 0, 0, 0),
        Vec3Fp::new(2 * FP_ONE, FP_ONE, FP_ONE),
    );
    let b = Transform::new(
        Vec3Fp::new(0, FP_ONE, 0),
        QuatFp::new(FP_ONE, 0, 0, 0),
        Vec3Fp::new(3 * FP_ONE, FP_ONE, FP_ONE),
    );
    let c = a.compose(&b).unwrap();
    assert_eq!(c.position, Vec3Fp::new(FP_ONE, FP_ONE, 0));
    assert_eq!(c.rotation, QuatFp::new(FP_ONE, 0, 0, 0));
    assert_eq!(c.scale, Vec3Fp::new(6 * FP_ONE, FP_ONE, FP_ONE));
}

#[test]
fn to_matrix_scales_then_rotates_then_translates() {
    // scale (2,1,1), zero rotation, translation (0,0,-2)
    // maps the point (1,0,0) to (2,0,-2)
    let t = Transform::new(
        Vec3Fp::new(0, 0, -2 * FP_ONE),
        QuatFp::new(FP_ONE, 0, 0, 0),
        Vec3Fp::new(2 * FP_ONE, FP_ONE, FP_ONE),
    );
    let m = t.to_matrix().unwrap();
    let p = Vec3Fp::new(FP_ONE, 0, 0);
    let image = mat4_transform_point(&m, &p).unwrap();
    assert_eq!(image, Vec3Fp::new(2 * FP_ONE, 0, -2 * FP_ONE));
}

#[test]
fn to_matrix_of_identity_is_the_identity_matrix() {
    let id = Transform::identity();
    let m = id.to_matrix().unwrap();
    for r in 0..4usize {
        for c in 0..4usize {
            let expected = if r == c { FP_ONE } else { 0 };
            assert_eq!(m.m[4 * r + c], expected);
        }
    }
}
