//! Affine transforms: position, rotation and non-uniform scale.
//!
//! Composition combines two transforms by summing positions, multiplying
//! rotations (left-to-right order) and multiplying scales component-wise.
//! `to_matrix` is the fixed product `Scale * Rotation * Translation`,
//! whose order is part of the engine's contract.

use crate::fixed::{fp_add, fp_fits, fp_mul, fp_mul_value, lemma_fp_mul_one, lemma_fp_mul_zero, Fp,
    FP_ONE};
use crate::math::{mat4_from_nonuniform_scale, mat4_from_quat, mat4_from_translation, mat4_mul,
    mat_entry, mul_entry, mul_entry_ok, mul_ok, quat_entry, quat_identity, quat_mat_ok, scale_entry,
    trans_entry, Mat4Fp, QuatFp, Vec3Fp};
use vstd::prelude::*;

verus! {

/// Position, rotation and non-uniform scale.
#[derive(Clone, Copy, PartialEq, Eq, Structural, Debug)]
pub struct Transform {
    pub position: Vec3Fp,
    pub rotation: QuatFp,
    pub scale: Vec3Fp,
}

/// The identity transform: zero position, identity rotation, unit scale.
pub open spec fn identity_value() -> Transform {
    Transform {
        position: Vec3Fp { x: 0i32, y: 0i32, z: 0i32 },
        rotation: quat_identity(),
        scale: Vec3Fp { x: FP_ONE, y: FP_ONE, z: FP_ONE },
    }
}

/// The `w` component of the quaternion product `a * b`.
pub open spec fn quat_mul_w(a: QuatFp, b: QuatFp) -> int {
    fp_mul_value(a.w as int, b.w as int) - fp_mul_value(a.x as int, b.x as int) - fp_mul_value(
        a.y as int,
        b.y as int,
    ) - fp_mul_value(a.z as int, b.z as int)
}

/// The `x` component of the quaternion product `a * b`.
pub open spec fn quat_mul_x(a: QuatFp, b: QuatFp) -> int {
    fp_mul_value(a.w as int, b.x as int) + fp_mul_value(a.x as int, b.w as int) + fp_mul_value(
        a.y as int,
        b.z as int,
    ) - fp_mul_value(a.z as int, b.y as int)
}

/// The `y` component of the quaternion product `a * b`.
pub open spec fn quat_mul_y(a: QuatFp, b: QuatFp) -> int {
    fp_mul_value(a.w as int, b.y as int) - fp_mul_value(a.x as int, b.z as int) + fp_mul_value(
        a.y as int,
        b.w as int,
    ) + fp_mul_value(a.z as int, b.x as int)
}

/// The `z` component of the quaternion product `a * b`.
pub open spec fn quat_mul_z(a: QuatFp, b: QuatFp) -> int {
    fp_mul_value(a.w as int, b.z as int) + fp_mul_value(a.x as int, b.y as int) - fp_mul_value(
        a.y as int,
        b.x as int,
    ) + fp_mul_value(a.z as int, b.w as int)
}

/// Whether every step of the quaternion product fits in 32 bits.
pub open spec fn quat_mul_ok(a: QuatFp, b: QuatFp) -> bool {
    &&& fp_fits(fp_mul_value(a.w as int, b.w as int))
    &&& fp_fits(fp_mul_value(a.w as int, b.x as int))
    &&& fp_fits(fp_mul_value(a.w as int, b.y as int))
    &&& fp_fits(fp_mul_value(a.w as int, b.z as int))
    &&& fp_fits(fp_mul_value(a.x as int, b.w as int))
    &&& fp_fits(fp_mul_value(a.x as int, b.x as int))
    &&& fp_fits(fp_mul_value(a.x as int, b.y as int))
    &&& fp_fits(fp_mul_value(a.x as int, b.z as int))
    &&& fp_fits(fp_mul_value(a.y as int, b.w as int))
    &&& fp_fits(fp_mul_value(a.y as int, b.x as int))
    &&& fp_fits(fp_mul_value(a.y as int, b.y as int))
    &&& fp_fits(fp_mul_value(a.y as int, b.z as int))
    &&& fp_fits(fp_mul_value(a.z as int, b.w as int))
    &&& fp_fits(fp_mul_value(a.z as int, b.x as int))
    &&& fp_fits(fp_mul_value(a.z as int, b.y as int))
    &&& fp_fits(fp_mul_value(a.z as int, b.z as int))
    &&& fp_fits(quat_mul_w(a, b))
    &&& fp_fits(quat_mul_x(a, b))
    &&& fp_fits(quat_mul_y(a, b))
    &&& fp_fits(quat_mul_z(a, b))
}

/// Whether the composition of `a` and `b` can be computed exactly.
pub open spec fn compose_ok(a: Transform, b: Transform) -> bool {
    &&& fp_fits(a.position.x + b.position.x)
    &&& fp_fits(a.position.y + b.position.y)
    &&& fp_fits(a.position.z + b.position.z)
    &&& quat_mul_ok(a.rotation, b.rotation)
    &&& fp_fits(fp_mul_value(a.scale.x as int, b.scale.x as int))
    &&& fp_fits(fp_mul_value(a.scale.y as int, b.scale.y as int))
    &&& fp_fits(fp_mul_value(a.scale.z as int, b.scale.z as int))
}

/// The composition of `a` and `b`: summed positions, the rotation
/// product `a.rotation * b.rotation`, and component-wise scale products.
/// Exact when `compose_ok(a, b)` holds.
pub open spec fn compose_value(a: Transform, b: Transform) -> Transform {
    Transform {
        position: Vec3Fp {
            x: (a.position.x + b.position.x) as i32,
            y: (a.position.y + b.position.y) as i32,
            z: (a.position.z + b.position.z) as i32,
        },
        rotation: QuatFp {
            w: quat_mul_w(a.rotation, b.rotation) as i32,
            x: quat_mul_x(a.rotation, b.rotation) as i32,
            y: quat_mul_y(a.rotation, b.rotation) as i32,
            z: quat_mul_z(a.rotation, b.rotation) as i32,
        },
        scale: Vec3Fp {
            x: fp_mul_value(a.scale.x as int, b.scale.x as int) as i32,
            y: fp_mul_value(a.scale.y as int, b.scale.y as int) as i32,
            z: fp_mul_value(a.scale.z as int, b.scale.z as int) as i32,
        },
    }
}

/// One four-term sum of widened 32-bit terms, narrowed back to 32 bits
/// when it fits (signs are baked into the callers' arguments).
fn sum4(p0: i64, p1: i64, p2: i64, p3: i64) -> (result: Option<Fp>)
    requires
        -0x8000_0000i64 <= p0 <= 0x8000_0000i64,
        -0x8000_0000i64 <= p1 <= 0x8000_0000i64,
        -0x8000_0000i64 <= p2 <= 0x8000_0000i64,
        -0x8000_0000i64 <= p3 <= 0x8000_0000i64,
    ensures
        result is Some <==> fp_fits(p0 + p1 + p2 + p3),
        result matches Some(v) ==> v == p0 + p1 + p2 + p3,
{
    let sum: i64 = p0 + p1 + p2 + p3;
    if i32::MIN as i64 <= sum && sum <= i32::MAX as i64 {
        Some(sum as i32)
    } else {
        None
    }
}

impl Transform {
    pub fn new(position: Vec3Fp, rotation: QuatFp, scale: Vec3Fp) -> (t: Transform)
        ensures
            t == (Transform { position, rotation, scale }),
    {
        Transform { position, rotation, scale }
    }

    /// The identity transform.
    pub fn identity() -> (t: Transform)
        ensures
            t == identity_value(),
    {
        Transform {
            position: Vec3Fp::zero(),
            rotation: QuatFp::one(),
            scale: Vec3Fp::new(FP_ONE, FP_ONE, FP_ONE),
        }
    }

    /// Composes `self` with `rhs`: positions sum, rotations multiply
    /// (`self` then `rhs`), scales multiply component-wise. `None`
    /// exactly when a step leaves the 32-bit range.
    pub fn compose(&self, rhs: &Transform) -> (result: Option<Transform>)
        ensures
            result is Some <==> compose_ok(*self, *rhs),
            result matches Some(t) ==> t == compose_value(*self, *rhs),
    {
        let px = match fp_add(self.position.x, rhs.position.x) {
            Some(v) => v,
            None => {
                return None;
            },
        };
        let py = match fp_add(self.position.y, rhs.position.y) {
            Some(v) => v,
            None => {
                return None;
            },
        };
        let pz = match fp_add(self.position.z, rhs.position.z) {
            Some(v) => v,
            None => {
                return None;
            },
        };
        let a = &self.rotation;
        let b = &rhs.rotation;
        let ww = match fp_mul(a.w, b.w) {
            Some(v) => v,
            None => {
                return None;
            },
        };
        let wx = match fp_mul(a.w, b.x) {
            Some(v) => v,
            None => {
                return None;
            },
        };
        let wy = match fp_mul(a.w, b.y) {
            Some(v) => v,
            None => {
                return None;
            },
        };
        let wz = match fp_mul(a.w, b.z) {
            Some(v) => v,
            None => {
                return None;
            },
        };
        let xw = match fp_mul(a.x, b.w) {
            Some(v) => v,
            None => {
                return None;
            },
        };
        let xx = match fp_mul(a.x, b.x) {
            Some(v) => v,
            None => {
                return None;
            },
        };
        let xy = match fp_mul(a.x, b.y) {
            Some(v) => v,
            None => {
                return None;
            },
        };
        let xz = match fp_mul(a.x, b.z) {
            Some(v) => v,
            None => {
                return None;
            },
        };
        let yw = match fp_mul(a.y, b.w) {
            Some(v) => v,
            None => {
                return None;
            },
        };
        let yx = match fp_mul(a.y, b.x) {
            Some(v) => v,
            None => {
                return None;
            },
        };
        let yy = match fp_mul(a.y, b.y) {
            Some(v) => v,
            None => {
                return None;
            },
        };
        let yz = match fp_mul(a.y, b.z) {
            Some(v) => v,
            None => {
                return None;
            },
        };
        let zw = match fp_mul(a.z, b.w) {
            Some(v) => v,
            None => {
                return None;
            },
        };
        let zx = match fp_mul(a.z, b.x) {
            Some(v) => v,
            None => {
                return None;
            },
        };
        let zy = match fp_mul(a.z, b.y) {
            Some(v) => v,
            None => {
                return None;
            },
        };
        let zz = match fp_mul(a.z, b.z) {
            Some(v) => v,
            None => {
                return None;
            },
        };
        let qw = match sum4(ww as i64, -(xx as i64), -(yy as i64), -(zz as i64)) {
            Some(v) => v,
            None => {
                return None;
            },
        };
        let qx = match sum4(wx as i64, xw as i64, yz as i64, -(zy as i64)) {
            Some(v) => v,
            None => {
                return None;
            },
        };
        let qy = match sum4(wy as i64, -(xz as i64), yw as i64, zx as i64) {
            Some(v) => v,
            None => {
                return None;
            },
        };
        let qz = match sum4(wz as i64, xy as i64, -(yx as i64), zw as i64) {
            Some(v) => v,
            None => {
                return None;
            },
        };
        let sx = match fp_mul(self.scale.x, rhs.scale.x) {
            Some(v) => v,
            None => {
                return None;
            },
        };
        let sy = match fp_mul(self.scale.y, rhs.scale.y) {
            Some(v) => v,
            None => {
                return None;
            },
        };
        let sz = match fp_mul(self.scale.z, rhs.scale.z) {
            Some(v) => v,
            None => {
                return None;
            },
        };
        Some(
            Transform {
                position: Vec3Fp { x: px, y: py, z: pz },
                rotation: QuatFp { w: qw, x: qx, y: qy, z: qz },
                scale: Vec3Fp { x: sx, y: sy, z: sz },
            },
        )
    }
}


/// Entry `(r, c)` of `Scale * Rotation`: the fixed-point dot product of
/// row `r` of the scale matrix with column `c` of the rotation matrix.
pub open spec fn scale_rot_entry(t: Transform, r: int, c: int) -> int {
    fp_mul_value(scale_entry(t.scale, r, 0), quat_entry(t.rotation, 0, c)) + fp_mul_value(
        scale_entry(t.scale, r, 1),
        quat_entry(t.rotation, 1, c),
    ) + fp_mul_value(scale_entry(t.scale, r, 2), quat_entry(t.rotation, 2, c)) + fp_mul_value(
        scale_entry(t.scale, r, 3),
        quat_entry(t.rotation, 3, c),
    )
}

/// Whether entry `(r, c)` of `Scale * Rotation` can be computed.
pub open spec fn scale_rot_entry_ok(t: Transform, r: int, c: int) -> bool {
    &&& fp_fits(fp_mul_value(scale_entry(t.scale, r, 0), quat_entry(t.rotation, 0, c)))
    &&& fp_fits(fp_mul_value(scale_entry(t.scale, r, 1), quat_entry(t.rotation, 1, c)))
    &&& fp_fits(fp_mul_value(scale_entry(t.scale, r, 2), quat_entry(t.rotation, 2, c)))
    &&& fp_fits(fp_mul_value(scale_entry(t.scale, r, 3), quat_entry(t.rotation, 3, c)))
    &&& fp_fits(scale_rot_entry(t, r, c))
}

/// Entry `(r, c)` of `Scale * Rotation * Translation`.
pub open spec fn to_matrix_entry(t: Transform, r: int, c: int) -> int {
    fp_mul_value(scale_rot_entry(t, r, 0), trans_entry(t.position, 0, c)) + fp_mul_value(
        scale_rot_entry(t, r, 1),
        trans_entry(t.position, 1, c),
    ) + fp_mul_value(scale_rot_entry(t, r, 2), trans_entry(t.position, 2, c)) + fp_mul_value(
        scale_rot_entry(t, r, 3),
        trans_entry(t.position, 3, c),
    )
}

/// Whether entry `(r, c)` of the full product can be computed.
pub open spec fn to_matrix_entry_ok(t: Transform, r: int, c: int) -> bool {
    &&& fp_fits(fp_mul_value(scale_rot_entry(t, r, 0), trans_entry(t.position, 0, c)))
    &&& fp_fits(fp_mul_value(scale_rot_entry(t, r, 1), trans_entry(t.position, 1, c)))
    &&& fp_fits(fp_mul_value(scale_rot_entry(t, r, 2), trans_entry(t.position, 2, c)))
    &&& fp_fits(fp_mul_value(scale_rot_entry(t, r, 3), trans_entry(t.position, 3, c)))
    &&& fp_fits(to_matrix_entry(t, r, c))
}

/// Whether `to_matrix` can be computed for `t` without leaving 32 bits.
pub open spec fn to_matrix_ok(t: Transform) -> bool {
    &&& quat_mat_ok(t.rotation)
    &&& forall|r: int, c: int| 0 <= r < 4 && 0 <= c < 4 ==> scale_rot_entry_ok(t, r, c)
    &&& forall|r: int, c: int| 0 <= r < 4 && 0 <= c < 4 ==> to_matrix_entry_ok(t, r, c)
}


/// If `sm` is the scale matrix of `t` and `rm` its rotation matrix, their
/// product is `scale_rot_entry` pointwise, and it can be computed exactly
/// when every `scale_rot_entry_ok` holds.
proof fn lemma_scale_rot_mul(t: Transform, sm: Mat4Fp, rm: Mat4Fp)
    requires
        forall|r: int, c: int|
            0 <= r < 4 && 0 <= c < 4 ==> mat_entry(sm, r, c) == scale_entry(t.scale, r, c),
        forall|r: int, c: int|
            0 <= r < 4 && 0 <= c < 4 ==> mat_entry(rm, r, c) == quat_entry(t.rotation, r, c),
    ensures
        forall|r: int, c: int|
            0 <= r < 4 && 0 <= c < 4 ==> mul_entry(sm, rm, r, c) == scale_rot_entry(t, r, c),
        forall|r: int, c: int|
            0 <= r < 4 && 0 <= c < 4 ==> (mul_entry_ok(sm, rm, r, c) <==> scale_rot_entry_ok(
                t,
                r,
                c,
            )),
        mul_ok(sm, rm) <==> (forall|r: int, c: int|
            0 <= r < 4 && 0 <= c < 4 ==> scale_rot_entry_ok(t, r, c)),
{
    assert forall|r: int, c: int| 0 <= r < 4 && 0 <= c < 4 implies mul_entry(sm, rm, r, c)
        == scale_rot_entry(t, r, c) && (mul_entry_ok(sm, rm, r, c) <==> scale_rot_entry_ok(
        t,
        r,
        c,
    )) by {
        assert(mat_entry(sm, r, 0) == scale_entry(t.scale, r, 0));
        assert(mat_entry(sm, r, 1) == scale_entry(t.scale, r, 1));
        assert(mat_entry(sm, r, 2) == scale_entry(t.scale, r, 2));
        assert(mat_entry(sm, r, 3) == scale_entry(t.scale, r, 3));
        assert(mat_entry(rm, 0, c) == quat_entry(t.rotation, 0, c));
        assert(mat_entry(rm, 1, c) == quat_entry(t.rotation, 1, c));
        assert(mat_entry(rm, 2, c) == quat_entry(t.rotation, 2, c));
        assert(mat_entry(rm, 3, c) == quat_entry(t.rotation, 3, c));
    }
    if mul_ok(sm, rm) {
        assert forall|r: int, c: int| 0 <= r < 4 && 0 <= c < 4 implies scale_rot_entry_ok(
            t,
            r,
            c,
        ) by {
            assert(mul_entry_ok(sm, rm, r, c));
        }
    }
    if forall|r: int, c: int| 0 <= r < 4 && 0 <= c < 4 ==> scale_rot_entry_ok(t, r, c) {
        assert forall|r: int, c: int| 0 <= r < 4 && 0 <= c < 4 implies mul_entry_ok(
            sm,
            rm,
            r,
            c,
        ) by {
            assert(scale_rot_entry_ok(t, r, c));
        }
    }
}

/// If `sr` is `Scale * Rotation` of `t` and `tm` its translation matrix,
/// their product is `to_matrix_entry` pointwise, and it can be computed
/// exactly when every `to_matrix_entry_ok` holds.
proof fn lemma_scale_rot_trans_mul(t: Transform, sr: Mat4Fp, tm: Mat4Fp)
    requires
        forall|r: int, c: int|
            0 <= r < 4 && 0 <= c < 4 ==> mat_entry(sr, r, c) == scale_rot_entry(t, r, c),
        forall|r: int, c: int|
            0 <= r < 4 && 0 <= c < 4 ==> mat_entry(tm, r, c) == trans_entry(t.position, r, c),
    ensures
        forall|r: int, c: int|
            0 <= r < 4 && 0 <= c < 4 ==> mul_entry(sr, tm, r, c) == to_matrix_entry(t, r, c),
        forall|r: int, c: int|
            0 <= r < 4 && 0 <= c < 4 ==> (mul_entry_ok(sr, tm, r, c) <==> to_matrix_entry_ok(
                t,
                r,
                c,
            )),
        mul_ok(sr, tm) <==> (forall|r: int, c: int|
            0 <= r < 4 && 0 <= c < 4 ==> to_matrix_entry_ok(t, r, c)),
{
    assert forall|r: int, c: int| 0 <= r < 4 && 0 <= c < 4 implies mul_entry(sr, tm, r, c)
        == to_matrix_entry(t, r, c) && (mul_entry_ok(sr, tm, r, c) <==> to_matrix_entry_ok(
        t,
        r,
        c,
    )) by {
        assert(mat_entry(sr, r, 0) == scale_rot_entry(t, r, 0));
        assert(mat_entry(sr, r, 1) == scale_rot_entry(t, r, 1));
        assert(mat_entry(sr, r, 2) == scale_rot_entry(t, r, 2));
        assert(mat_entry(sr, r, 3) == scale_rot_entry(t, r, 3));
        assert(mat_entry(tm, 0, c) == trans_entry(t.position, 0, c));
        assert(mat_entry(tm, 1, c) == trans_entry(t.position, 1, c));
        assert(mat_entry(tm, 2, c) == trans_entry(t.position, 2, c));
        assert(mat_entry(tm, 3, c) == trans_entry(t.position, 3, c));
    }
    if mul_ok(sr, tm) {
        assert forall|r: int, c: int| 0 <= r < 4 && 0 <= c < 4 implies to_matrix_entry_ok(
            t,
            r,
            c,
        ) by {
            assert(mul_entry_ok(sr, tm, r, c));
        }
    }
    if forall|r: int, c: int| 0 <= r < 4 && 0 <= c < 4 ==> to_matrix_entry_ok(t, r, c) {
        assert forall|r: int, c: int| 0 <= r < 4 && 0 <= c < 4 implies mul_entry_ok(
            sr,
            tm,
            r,
            c,
        ) by {
            assert(to_matrix_entry_ok(t, r, c));
        }
    }
}

impl Transform {
    /// The matrix `Scale * Rotation * Translation` of this transform (the
    /// order is fixed: applied to a point, translation acts first). `None`
    /// exactly when a step of the computation leaves the 32-bit range.
    pub fn to_matrix(&self) -> (result: Option<Mat4Fp>)
        ensures
            result is Some <==> to_matrix_ok(*self),
            result matches Some(m) ==> forall|r: int, c: int|
                0 <= r < 4 && 0 <= c < 4 ==> mat_entry(m, r, c) == to_matrix_entry(*self, r, c),
    {
        let rm = match mat4_from_quat(&self.rotation) {
            Some(v) => v,
            None => {
                return None;
            },
        };
        let sm = mat4_from_nonuniform_scale(&self.scale);
        proof {
            lemma_scale_rot_mul(*self, sm, rm);
        }
        let sr = match mat4_mul(&sm, &rm) {
            Some(v) => v,
            None => {
                return None;
            },
        };
        let tm = mat4_from_translation(&self.position);
        proof {
            lemma_scale_rot_trans_mul(*self, sr, tm);
        }
        let m = match mat4_mul(&sr, &tm) {
            Some(v) => v,
            None => {
                return None;
            },
        };
        Some(m)
    }
}

/// Composition with the identity transform, on either side, is always
/// defined and returns the other transform unchanged: `identity + T == T`
/// and `T + identity == T`.
pub proof fn lemma_compose_identity(t: Transform)
    ensures
        compose_ok(identity_value(), t),
        compose_ok(t, identity_value()),
        compose_value(identity_value(), t) == t,
        compose_value(t, identity_value()) == t,
{
    lemma_fp_mul_one(t.scale.x as int);
    lemma_fp_mul_one(t.scale.y as int);
    lemma_fp_mul_one(t.scale.z as int);
    lemma_fp_mul_one(t.rotation.w as int);
    lemma_fp_mul_one(t.rotation.x as int);
    lemma_fp_mul_one(t.rotation.y as int);
    lemma_fp_mul_one(t.rotation.z as int);
    lemma_fp_mul_zero(t.rotation.w as int);
    lemma_fp_mul_zero(t.rotation.x as int);
    lemma_fp_mul_zero(t.rotation.y as int);
    lemma_fp_mul_zero(t.rotation.z as int);
}

} // verus!
