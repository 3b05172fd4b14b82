//! Fixed-point vectors, quaternions and 4x4 matrices.
//!
//! Matrices are stored row-major: entry `(r, c)` is element `4 * r + c`,
//! and a point transforms as a column vector, `out_r = sum_c m[r][c] * v_c`.
//! The fixed-point 1 ([`crate::fixed::FP_ONE`]) stands on the diagonal of
//! the identity.

use crate::fixed::{fp_add, fp_mul, fp_mul_value, fp_fits, fp_sub, Fp, FP_ONE};
use vstd::prelude::*;

verus! {

/// A 3-component fixed-point vector.
#[derive(Clone, Copy, PartialEq, Eq, Structural, Debug)]
pub struct Vec3Fp {
    pub x: Fp,
    pub y: Fp,
    pub z: Fp,
}

impl Vec3Fp {
    pub fn new(x: Fp, y: Fp, z: Fp) -> (v: Vec3Fp)
        ensures
            v == (Vec3Fp { x, y, z }),
    {
        Vec3Fp { x, y, z }
    }

    /// The zero vector.
    pub fn zero() -> (v: Vec3Fp)
        ensures
            v == (Vec3Fp { x: 0i32, y: 0i32, z: 0i32 }),
    {
        Vec3Fp { x: 0, y: 0, z: 0 }
    }
}

/// A fixed-point quaternion, `w + x i + y j + z k`.
#[derive(Clone, Copy, PartialEq, Eq, Structural, Debug)]
pub struct QuatFp {
    pub w: Fp,
    pub x: Fp,
    pub y: Fp,
    pub z: Fp,
}

impl QuatFp {
    pub fn new(w: Fp, x: Fp, y: Fp, z: Fp) -> (q: QuatFp)
        ensures
            q == (QuatFp { w, x, y, z }),
    {
        QuatFp { w, x, y, z }
    }

    /// The identity rotation.
    pub fn one() -> (q: QuatFp)
        ensures
            q == quat_identity(),
    {
        QuatFp { w: FP_ONE, x: 0, y: 0, z: 0 }
    }
}

/// The identity quaternion value.
pub open spec fn quat_identity() -> QuatFp {
    QuatFp { w: FP_ONE, x: 0i32, y: 0i32, z: 0i32 }
}

/// A 4x4 fixed-point matrix, row-major.
#[derive(Clone, Copy, Debug)]
pub struct Mat4Fp {
    pub m: [Fp; 16],
}

/// Entry `(r, c)` of a matrix, as a mathematical integer.
pub open spec fn mat_entry(m: Mat4Fp, r: int, c: int) -> int {
    m.m@[4 * r + c] as int
}

/// Entry `(r, c)` of the product of `a` and `b`: the fixed-point dot
/// product of row `r` of `a` with column `c` of `b`.
pub open spec fn mul_entry(a: Mat4Fp, b: Mat4Fp, r: int, c: int) -> int {
    fp_mul_value(mat_entry(a, r, 0), mat_entry(b, 0, c)) + fp_mul_value(
        mat_entry(a, r, 1),
        mat_entry(b, 1, c),
    ) + fp_mul_value(mat_entry(a, r, 2), mat_entry(b, 2, c)) + fp_mul_value(
        mat_entry(a, r, 3),
        mat_entry(b, 3, c),
    )
}

/// Whether entry `(r, c)` of the product can be computed: every partial
/// product fits, and so does their sum.
pub open spec fn mul_entry_ok(a: Mat4Fp, b: Mat4Fp, r: int, c: int) -> bool {
    &&& fp_fits(fp_mul_value(mat_entry(a, r, 0), mat_entry(b, 0, c)))
    &&& fp_fits(fp_mul_value(mat_entry(a, r, 1), mat_entry(b, 1, c)))
    &&& fp_fits(fp_mul_value(mat_entry(a, r, 2), mat_entry(b, 2, c)))
    &&& fp_fits(fp_mul_value(mat_entry(a, r, 3), mat_entry(b, 3, c)))
    &&& fp_fits(mul_entry(a, b, r, c))
}

/// Whether the whole product of `a` and `b` can be computed.
pub open spec fn mul_ok(a: Mat4Fp, b: Mat4Fp) -> bool {
    forall|r: int, c: int| 0 <= r < 4 && 0 <= c < 4 ==> mul_entry_ok(a, b, r, c)
}

/// One entry of the matrix product, or `None` exactly when a partial
/// product or the sum leaves the 32-bit range.
fn mul_entry_exec(a: &Mat4Fp, b: &Mat4Fp, r: usize, c: usize) -> (result: Option<Fp>)
    requires
        r < 4,
        c < 4,
    ensures
        result is Some <==> mul_entry_ok(*a, *b, r as int, c as int),
        result matches Some(v) ==> v == mul_entry(*a, *b, r as int, c as int),
{
    let p0 = match fp_mul(a.m[4 * r], b.m[c]) {
        Some(v) => v,
        None => {
            return None;
        },
    };
    let p1 = match fp_mul(a.m[4 * r + 1], b.m[4 + c]) {
        Some(v) => v,
        None => {
            return None;
        },
    };
    let p2 = match fp_mul(a.m[4 * r + 2], b.m[8 + c]) {
        Some(v) => v,
        None => {
            return None;
        },
    };
    let p3 = match fp_mul(a.m[4 * r + 3], b.m[12 + c]) {
        Some(v) => v,
        None => {
            return None;
        },
    };
    let sum: i64 = p0 as i64 + p1 as i64 + p2 as i64 + p3 as i64;
    if i32::MIN as i64 <= sum && sum <= i32::MAX as i64 {
        Some(sum as i32)
    } else {
        None
    }
}

/// The identity matrix.
pub fn mat4_identity() -> (m: Mat4Fp)
    ensures
        forall|r: int, c: int|
            0 <= r < 4 && 0 <= c < 4 ==> mat_entry(m, r, c) == (if r == c {
                FP_ONE as int
            } else {
                0
            }),
{
    let m = Mat4Fp {
        m: [
            FP_ONE,
            0,
            0,
            0,
            0,
            FP_ONE,
            0,
            0,
            0,
            0,
            FP_ONE,
            0,
            0,
            0,
            0,
            FP_ONE,
        ],
    };
    m
}

/// The matrix product `a * b`, or `None` exactly when some entry cannot
/// be computed in 32 bits.
pub fn mat4_mul(a: &Mat4Fp, b: &Mat4Fp) -> (result: Option<Mat4Fp>)
    ensures
        result is Some <==> mul_ok(*a, *b),
        result matches Some(m) ==> forall|r: int, c: int|
            0 <= r < 4 && 0 <= c < 4 ==> mat_entry(m, r, c) == mul_entry(*a, *b, r, c),
{
    let e00 = match mul_entry_exec(a, b, 0, 0) {
        Some(v) => v,
        None => {
            return None;
        },
    };
    let e01 = match mul_entry_exec(a, b, 0, 1) {
        Some(v) => v,
        None => {
            return None;
        },
    };
    let e02 = match mul_entry_exec(a, b, 0, 2) {
        Some(v) => v,
        None => {
            return None;
        },
    };
    let e03 = match mul_entry_exec(a, b, 0, 3) {
        Some(v) => v,
        None => {
            return None;
        },
    };
    let e10 = match mul_entry_exec(a, b, 1, 0) {
        Some(v) => v,
        None => {
            return None;
        },
    };
    let e11 = match mul_entry_exec(a, b, 1, 1) {
        Some(v) => v,
        None => {
            return None;
        },
    };
    let e12 = match mul_entry_exec(a, b, 1, 2) {
        Some(v) => v,
        None => {
            return None;
        },
    };
    let e13 = match mul_entry_exec(a, b, 1, 3) {
        Some(v) => v,
        None => {
            return None;
        },
    };
    let e20 = match mul_entry_exec(a, b, 2, 0) {
        Some(v) => v,
        None => {
            return None;
        },
    };
    let e21 = match mul_entry_exec(a, b, 2, 1) {
        Some(v) => v,
        None => {
            return None;
        },
    };
    let e22 = match mul_entry_exec(a, b, 2, 2) {
        Some(v) => v,
        None => {
            return None;
        },
    };
    let e23 = match mul_entry_exec(a, b, 2, 3) {
        Some(v) => v,
        None => {
            return None;
        },
    };
    let e30 = match mul_entry_exec(a, b, 3, 0) {
        Some(v) => v,
        None => {
            return None;
        },
    };
    let e31 = match mul_entry_exec(a, b, 3, 1) {
        Some(v) => v,
        None => {
            return None;
        },
    };
    let e32 = match mul_entry_exec(a, b, 3, 2) {
        Some(v) => v,
        None => {
            return None;
        },
    };
    let e33 = match mul_entry_exec(a, b, 3, 3) {
        Some(v) => v,
        None => {
            return None;
        },
    };
    let m = Mat4Fp {
        m: [e00, e01, e02, e03, e10, e11, e12, e13, e20, e21, e22, e23, e30, e31, e32, e33],
    };
    proof {
        assert forall|r: int, c: int| 0 <= r < 4 && 0 <= c < 4 implies mat_entry(m, r, c)
            == mul_entry(*a, *b, r, c) && mul_entry_ok(*a, *b, r, c) by {
            assert(mat_entry(m, 0, 0) == e00 as int);
            assert(mat_entry(m, 0, 1) == e01 as int);
            assert(mat_entry(m, 0, 2) == e02 as int);
            assert(mat_entry(m, 0, 3) == e03 as int);
            assert(mat_entry(m, 1, 0) == e10 as int);
            assert(mat_entry(m, 1, 1) == e11 as int);
            assert(mat_entry(m, 1, 2) == e12 as int);
            assert(mat_entry(m, 1, 3) == e13 as int);
            assert(mat_entry(m, 2, 0) == e20 as int);
            assert(mat_entry(m, 2, 1) == e21 as int);
            assert(mat_entry(m, 2, 2) == e22 as int);
            assert(mat_entry(m, 2, 3) == e23 as int);
            assert(mat_entry(m, 3, 0) == e30 as int);
            assert(mat_entry(m, 3, 1) == e31 as int);
            assert(mat_entry(m, 3, 2) == e32 as int);
            assert(mat_entry(m, 3, 3) == e33 as int);
        }
    }
    Some(m)
}

/// Entry `(r, c)` of the non-uniform scale matrix `diag(s.x, s.y, s.z, 1)`.
pub open spec fn scale_entry(s: Vec3Fp, r: int, c: int) -> int {
    if r != c {
        0
    } else if r == 0 {
        s.x as int
    } else if r == 1 {
        s.y as int
    } else if r == 2 {
        s.z as int
    } else {
        FP_ONE as int
    }
}

/// The matrix scaling each axis by the matching component of `s`.
pub fn mat4_from_nonuniform_scale(s: &Vec3Fp) -> (m: Mat4Fp)
    ensures
        forall|r: int, c: int|
            0 <= r < 4 && 0 <= c < 4 ==> mat_entry(m, r, c) == scale_entry(*s, r, c),
{
    let m = Mat4Fp { m: [s.x, 0, 0, 0, 0, s.y, 0, 0, 0, 0, s.z, 0, 0, 0, 0, FP_ONE] };
    m
}

/// Entry `(r, c)` of the translation matrix moving points by `p`:
/// the identity with `p` in the last column.
pub open spec fn trans_entry(p: Vec3Fp, r: int, c: int) -> int {
    if c == 3 && r == 0 {
        p.x as int
    } else if c == 3 && r == 1 {
        p.y as int
    } else if c == 3 && r == 2 {
        p.z as int
    } else if r == c {
        FP_ONE as int
    } else {
        0
    }
}

/// The matrix translating points by `p`.
pub fn mat4_from_translation(p: &Vec3Fp) -> (m: Mat4Fp)
    ensures
        forall|r: int, c: int|
            0 <= r < 4 && 0 <= c < 4 ==> mat_entry(m, r, c) == trans_entry(*p, r, c),
{
    let m = Mat4Fp {
        m: [FP_ONE, 0, 0, p.x, 0, FP_ONE, 0, p.y, 0, 0, FP_ONE, p.z, 0, 0, 0, FP_ONE],
    };
    m
}

/// Entry `(r, c)` of the rotation matrix of quaternion `q`, in the usual
/// row-major form (`1 - 2(y^2 + z^2)` and so on, doubled sums written as
/// `t + t` to match the checked arithmetic that computes them).
pub open spec fn quat_entry(q: QuatFp, r: int, c: int) -> int {
    let w = q.w as int;
    let x = q.x as int;
    let y = q.y as int;
    let z = q.z as int;
    if r == 0 && c == 0 {
        FP_ONE - (fp_mul_value(y, y) + fp_mul_value(z, z)) - (fp_mul_value(y, y) + fp_mul_value(
            z,
            z,
        ))
    } else if r == 0 && c == 1 {
        (fp_mul_value(x, y) - fp_mul_value(w, z)) + (fp_mul_value(x, y) - fp_mul_value(w, z))
    } else if r == 0 && c == 2 {
        (fp_mul_value(x, z) + fp_mul_value(w, y)) + (fp_mul_value(x, z) + fp_mul_value(w, y))
    } else if r == 1 && c == 0 {
        (fp_mul_value(x, y) + fp_mul_value(w, z)) + (fp_mul_value(x, y) + fp_mul_value(w, z))
    } else if r == 1 && c == 1 {
        FP_ONE - (fp_mul_value(x, x) + fp_mul_value(z, z)) - (fp_mul_value(x, x) + fp_mul_value(
            z,
            z,
        ))
    } else if r == 1 && c == 2 {
        (fp_mul_value(y, z) - fp_mul_value(w, x)) + (fp_mul_value(y, z) - fp_mul_value(w, x))
    } else if r == 2 && c == 0 {
        (fp_mul_value(x, z) - fp_mul_value(w, y)) + (fp_mul_value(x, z) - fp_mul_value(w, y))
    } else if r == 2 && c == 1 {
        (fp_mul_value(y, z) + fp_mul_value(w, x)) + (fp_mul_value(y, z) + fp_mul_value(w, x))
    } else if r == 2 && c == 2 {
        FP_ONE - (fp_mul_value(x, x) + fp_mul_value(y, y)) - (fp_mul_value(x, x) + fp_mul_value(
            y,
            y,
        ))
    } else if r == c {
        FP_ONE as int
    } else {
        0
    }
}

/// Whether the rotation matrix of `q` can be computed: every partial
/// product, sum and doubling fits in 32 bits.
pub open spec fn quat_mat_ok(q: QuatFp) -> bool {
    let w = q.w as int;
    let x = q.x as int;
    let y = q.y as int;
    let z = q.z as int;
    &&& fp_fits(fp_mul_value(x, x))
    &&& fp_fits(fp_mul_value(y, y))
    &&& fp_fits(fp_mul_value(z, z))
    &&& fp_fits(fp_mul_value(x, y))
    &&& fp_fits(fp_mul_value(x, z))
    &&& fp_fits(fp_mul_value(y, z))
    &&& fp_fits(fp_mul_value(w, x))
    &&& fp_fits(fp_mul_value(w, y))
    &&& fp_fits(fp_mul_value(w, z))
    &&& fp_fits(fp_mul_value(y, y) + fp_mul_value(z, z))
    &&& fp_fits(fp_mul_value(x, x) + fp_mul_value(z, z))
    &&& fp_fits(fp_mul_value(x, x) + fp_mul_value(y, y))
    &&& fp_fits(FP_ONE - (fp_mul_value(y, y) + fp_mul_value(z, z)))
    &&& fp_fits(FP_ONE - (fp_mul_value(x, x) + fp_mul_value(z, z)))
    &&& fp_fits(FP_ONE - (fp_mul_value(x, x) + fp_mul_value(y, y)))
    &&& fp_fits(quat_entry(q, 0, 0))
    &&& fp_fits(quat_entry(q, 0, 1))
    &&& fp_fits(quat_entry(q, 0, 2))
    &&& fp_fits(quat_entry(q, 1, 0))
    &&& fp_fits(quat_entry(q, 1, 1))
    &&& fp_fits(quat_entry(q, 1, 2))
    &&& fp_fits(quat_entry(q, 2, 0))
    &&& fp_fits(quat_entry(q, 2, 1))
    &&& fp_fits(quat_entry(q, 2, 2))
    &&& fp_fits(fp_mul_value(x, y) - fp_mul_value(w, z))
    &&& fp_fits(fp_mul_value(x, z) + fp_mul_value(w, y))
    &&& fp_fits(fp_mul_value(x, y) + fp_mul_value(w, z))
    &&& fp_fits(fp_mul_value(y, z) - fp_mul_value(w, x))
    &&& fp_fits(fp_mul_value(x, z) - fp_mul_value(w, y))
    &&& fp_fits(fp_mul_value(y, z) + fp_mul_value(w, x))
}

/// The rotation matrix of `q`, or `None` exactly when a step of its
/// computation leaves the 32-bit range.
pub fn mat4_from_quat(q: &QuatFp) -> (result: Option<Mat4Fp>)
    ensures
        result is Some <==> quat_mat_ok(*q),
        result matches Some(m) ==> forall|r: int, c: int|
            0 <= r < 4 && 0 <= c < 4 ==> mat_entry(m, r, c) == quat_entry(*q, r, c),
{
    let xx = match fp_mul(q.x, q.x) {
        Some(v) => v,
        None => {
            return None;
        },
    };
    let yy = match fp_mul(q.y, q.y) {
        Some(v) => v,
        None => {
            return None;
        },
    };
    let zz = match fp_mul(q.z, q.z) {
        Some(v) => v,
        None => {
            return None;
        },
    };
    let xy = match fp_mul(q.x, q.y) {
        Some(v) => v,
        None => {
            return None;
        },
    };
    let xz = match fp_mul(q.x, q.z) {
        Some(v) => v,
        None => {
            return None;
        },
    };
    let yz = match fp_mul(q.y, q.z) {
        Some(v) => v,
        None => {
            return None;
        },
    };
    let wx = match fp_mul(q.w, q.x) {
        Some(v) => v,
        None => {
            return None;
        },
    };
    let wy = match fp_mul(q.w, q.y) {
        Some(v) => v,
        None => {
            return None;
        },
    };
    let wz = match fp_mul(q.w, q.z) {
        Some(v) => v,
        None => {
            return None;
        },
    };
    let s00 = match fp_add(yy, zz) {
        Some(v) => v,
        None => {
            return None;
        },
    };
    let s11 = match fp_add(xx, zz) {
        Some(v) => v,
        None => {
            return None;
        },
    };
    let s22 = match fp_add(xx, yy) {
        Some(v) => v,
        None => {
            return None;
        },
    };
    let h00 = match fp_sub(FP_ONE, s00) {
        Some(v) => v,
        None => {
            return None;
        },
    };
    let m00 = match fp_sub(h00, s00) {
        Some(v) => v,
        None => {
            return None;
        },
    };
    let h11 = match fp_sub(FP_ONE, s11) {
        Some(v) => v,
        None => {
            return None;
        },
    };
    let m11 = match fp_sub(h11, s11) {
        Some(v) => v,
        None => {
            return None;
        },
    };
    let h22 = match fp_sub(FP_ONE, s22) {
        Some(v) => v,
        None => {
            return None;
        },
    };
    let m22 = match fp_sub(h22, s22) {
        Some(v) => v,
        None => {
            return None;
        },
    };
    let t01 = match fp_sub(xy, wz) {
        Some(v) => v,
        None => {
            return None;
        },
    };
    let m01 = match fp_add(t01, t01) {
        Some(v) => v,
        None => {
            return None;
        },
    };
    let t02 = match fp_add(xz, wy) {
        Some(v) => v,
        None => {
            return None;
        },
    };
    let m02 = match fp_add(t02, t02) {
        Some(v) => v,
        None => {
            return None;
        },
    };
    let t10 = match fp_add(xy, wz) {
        Some(v) => v,
        None => {
            return None;
        },
    };
    let m10 = match fp_add(t10, t10) {
        Some(v) => v,
        None => {
            return None;
        },
    };
    let t12 = match fp_sub(yz, wx) {
        Some(v) => v,
        None => {
            return None;
        },
    };
    let m12 = match fp_add(t12, t12) {
        Some(v) => v,
        None => {
            return None;
        },
    };
    let t20 = match fp_sub(xz, wy) {
        Some(v) => v,
        None => {
            return None;
        },
    };
    let m20 = match fp_add(t20, t20) {
        Some(v) => v,
        None => {
            return None;
        },
    };
    let t21 = match fp_add(yz, wx) {
        Some(v) => v,
        None => {
            return None;
        },
    };
    let m21 = match fp_add(t21, t21) {
        Some(v) => v,
        None => {
            return None;
        },
    };
    let m = Mat4Fp {
        m: [m00, m01, m02, 0, m10, m11, m12, 0, m20, m21, m22, 0, 0, 0, 0, FP_ONE],
    };
    Some(m)
}

/// The image of point `v` under `m` as an affine map: `m * (v, 1)`,
/// dropping the fourth row. `None` exactly when a step leaves 32 bits.
pub open spec fn apply_entry(m: Mat4Fp, v: Vec3Fp, r: int) -> int {
    fp_mul_value(mat_entry(m, r, 0), v.x as int) + fp_mul_value(mat_entry(m, r, 1), v.y as int)
        + fp_mul_value(mat_entry(m, r, 2), v.z as int) + fp_mul_value(
        mat_entry(m, r, 3),
        FP_ONE as int,
    )
}

/// Whether row `r` of the point application can be computed.
pub open spec fn apply_entry_ok(m: Mat4Fp, v: Vec3Fp, r: int) -> bool {
    &&& fp_fits(fp_mul_value(mat_entry(m, r, 0), v.x as int))
    &&& fp_fits(fp_mul_value(mat_entry(m, r, 1), v.y as int))
    &&& fp_fits(fp_mul_value(mat_entry(m, r, 2), v.z as int))
    &&& fp_fits(fp_mul_value(mat_entry(m, r, 3), FP_ONE as int))
    &&& fp_fits(apply_entry(m, v, r))
}

/// One row of the affine application of `m` to `v`.
fn apply_entry_exec(m: &Mat4Fp, v: &Vec3Fp, r: usize) -> (result: Option<Fp>)
    requires
        r < 4,
    ensures
        result is Some <==> apply_entry_ok(*m, *v, r as int),
        result matches Some(o) ==> o == apply_entry(*m, *v, r as int),
{
    let p0 = match fp_mul(m.m[4 * r], v.x) {
        Some(t) => t,
        None => {
            return None;
        },
    };
    let p1 = match fp_mul(m.m[4 * r + 1], v.y) {
        Some(t) => t,
        None => {
            return None;
        },
    };
    let p2 = match fp_mul(m.m[4 * r + 2], v.z) {
        Some(t) => t,
        None => {
            return None;
        },
    };
    let p3 = match fp_mul(m.m[4 * r + 3], FP_ONE) {
        Some(t) => t,
        None => {
            return None;
        },
    };
    let sum: i64 = p0 as i64 + p1 as i64 + p2 as i64 + p3 as i64;
    if i32::MIN as i64 <= sum && sum <= i32::MAX as i64 {
        Some(sum as i32)
    } else {
        None
    }
}

/// Applies `m` to the point `v` (with homogeneous coordinate 1) and
/// returns the first three rows, or `None` exactly when a step leaves
/// the 32-bit range.
pub fn mat4_transform_point(m: &Mat4Fp, v: &Vec3Fp) -> (result: Option<Vec3Fp>)
    ensures
        result is Some <==> apply_entry_ok(*m, *v, 0) && apply_entry_ok(*m, *v, 1)
            && apply_entry_ok(*m, *v, 2),
        result matches Some(o) ==> o.x == apply_entry(*m, *v, 0) && o.y == apply_entry(*m, *v, 1)
            && o.z == apply_entry(*m, *v, 2),
{
    let x = match apply_entry_exec(m, v, 0) {
        Some(t) => t,
        None => {
            return None;
        },
    };
    let y = match apply_entry_exec(m, v, 1) {
        Some(t) => t,
        None => {
            return None;
        },
    };
    let z = match apply_entry_exec(m, v, 2) {
        Some(t) => t,
        None => {
            return None;
        },
    };
    Some(Vec3Fp { x, y, z })
}

} // verus!
