//! The camera: a transform plus a precomputed projection matrix.
//!
//! `view()` is the inverse of the transform's matrix, built analytically
//! as `Translation(-p) * Rotation(conj q) * Scale(1/s)` — the inverse of
//! each factor of `to_matrix`, multiplied in reverse order. Deriving the
//! projection matrix itself (a perspective with a tangent in it) is
//! real-number work left to the caller; the camera stores the result.

use crate::fixed::{fp_fits, fp_mul_value, fp_neg, fp_recip, fp_recip_value};
use crate::math::{mat4_from_nonuniform_scale, mat4_from_quat, mat4_from_translation, mat4_mul,
    mat_entry, mul_entry, mul_entry_ok, mul_ok, quat_entry, quat_mat_ok, scale_entry, trans_entry,
    Mat4Fp, QuatFp, Vec3Fp};
use crate::transform::Transform;
use vstd::prelude::*;

verus! {

/// Whether each component of `p` can be negated.
pub open spec fn neg_ok(p: Vec3Fp) -> bool {
    &&& fp_fits(-(p.x as int))
    &&& fp_fits(-(p.y as int))
    &&& fp_fits(-(p.z as int))
}

/// The component-wise negation of `p`.
pub open spec fn neg_value(p: Vec3Fp) -> Vec3Fp {
    Vec3Fp { x: (-(p.x as int)) as i32, y: (-(p.y as int)) as i32, z: (-(p.z as int)) as i32 }
}

/// Whether the conjugate of `q` can be computed.
pub open spec fn conj_ok(q: QuatFp) -> bool {
    &&& fp_fits(-(q.x as int))
    &&& fp_fits(-(q.y as int))
    &&& fp_fits(-(q.z as int))
}

/// The conjugate of `q`: the axis components negated.
pub open spec fn conj_value(q: QuatFp) -> QuatFp {
    QuatFp {
        w: q.w,
        x: (-(q.x as int)) as i32,
        y: (-(q.y as int)) as i32,
        z: (-(q.z as int)) as i32,
    }
}

/// Whether each component of `s` has a computable reciprocal.
pub open spec fn recip_ok(s: Vec3Fp) -> bool {
    &&& s.x != 0 && fp_fits(fp_recip_value(s.x as int))
    &&& s.y != 0 && fp_fits(fp_recip_value(s.y as int))
    &&& s.z != 0 && fp_fits(fp_recip_value(s.z as int))
}

/// The component-wise fixed-point reciprocal of `s`.
pub open spec fn recip_value(s: Vec3Fp) -> Vec3Fp {
    Vec3Fp {
        x: fp_recip_value(s.x as int) as i32,
        y: fp_recip_value(s.y as int) as i32,
        z: fp_recip_value(s.z as int) as i32,
    }
}

/// Entry `(r, c)` of `Translation(-p) * Rotation(conj q)`.
pub open spec fn view_tr_entry(t: Transform, r: int, c: int) -> int {
    fp_mul_value(trans_entry(neg_value(t.position), r, 0), quat_entry(conj_value(t.rotation), 0, c))
        + fp_mul_value(
        trans_entry(neg_value(t.position), r, 1),
        quat_entry(conj_value(t.rotation), 1, c),
    ) + fp_mul_value(
        trans_entry(neg_value(t.position), r, 2),
        quat_entry(conj_value(t.rotation), 2, c),
    ) + fp_mul_value(
        trans_entry(neg_value(t.position), r, 3),
        quat_entry(conj_value(t.rotation), 3, c),
    )
}

/// Whether entry `(r, c)` of the first view product can be computed.
pub open spec fn view_tr_entry_ok(t: Transform, r: int, c: int) -> bool {
    &&& fp_fits(
        fp_mul_value(
            trans_entry(neg_value(t.position), r, 0),
            quat_entry(conj_value(t.rotation), 0, c),
        ),
    )
    &&& fp_fits(
        fp_mul_value(
            trans_entry(neg_value(t.position), r, 1),
            quat_entry(conj_value(t.rotation), 1, c),
        ),
    )
    &&& fp_fits(
        fp_mul_value(
            trans_entry(neg_value(t.position), r, 2),
            quat_entry(conj_value(t.rotation), 2, c),
        ),
    )
    &&& fp_fits(
        fp_mul_value(
            trans_entry(neg_value(t.position), r, 3),
            quat_entry(conj_value(t.rotation), 3, c),
        ),
    )
    &&& fp_fits(view_tr_entry(t, r, c))
}

/// Entry `(r, c)` of the full view matrix
/// `Translation(-p) * Rotation(conj q) * Scale(1/s)`.
pub open spec fn view_entry(t: Transform, r: int, c: int) -> int {
    fp_mul_value(view_tr_entry(t, r, 0), scale_entry(recip_value(t.scale), 0, c)) + fp_mul_value(
        view_tr_entry(t, r, 1),
        scale_entry(recip_value(t.scale), 1, c),
    ) + fp_mul_value(view_tr_entry(t, r, 2), scale_entry(recip_value(t.scale), 2, c))
        + fp_mul_value(view_tr_entry(t, r, 3), scale_entry(recip_value(t.scale), 3, c))
}

/// Whether entry `(r, c)` of the full view matrix can be computed.
pub open spec fn view_entry_ok(t: Transform, r: int, c: int) -> bool {
    &&& fp_fits(fp_mul_value(view_tr_entry(t, r, 0), scale_entry(recip_value(t.scale), 0, c)))
    &&& fp_fits(fp_mul_value(view_tr_entry(t, r, 1), scale_entry(recip_value(t.scale), 1, c)))
    &&& fp_fits(fp_mul_value(view_tr_entry(t, r, 2), scale_entry(recip_value(t.scale), 2, c)))
    &&& fp_fits(fp_mul_value(view_tr_entry(t, r, 3), scale_entry(recip_value(t.scale), 3, c)))
    &&& fp_fits(view_entry(t, r, c))
}

/// Whether the whole view matrix can be computed for `t`.
pub open spec fn view_ok(t: Transform) -> bool {
    &&& neg_ok(t.position)
    &&& conj_ok(t.rotation)
    &&& recip_ok(t.scale)
    &&& quat_mat_ok(conj_value(t.rotation))
    &&& forall|r: int, c: int| 0 <= r < 4 && 0 <= c < 4 ==> view_tr_entry_ok(t, r, c)
    &&& forall|r: int, c: int| 0 <= r < 4 && 0 <= c < 4 ==> view_entry_ok(t, r, c)
}

/// If `tm` is the translation matrix of `-p` and `rm` the rotation matrix
/// of the conjugate, their product is `view_tr_entry` pointwise.
proof fn lemma_view_tr_mul(t: Transform, tm: Mat4Fp, rm: Mat4Fp)
    requires
        forall|r: int, c: int|
            0 <= r < 4 && 0 <= c < 4 ==> mat_entry(tm, r, c) == trans_entry(
                neg_value(t.position),
                r,
                c,
            ),
        forall|r: int, c: int|
            0 <= r < 4 && 0 <= c < 4 ==> mat_entry(rm, r, c) == quat_entry(
                conj_value(t.rotation),
                r,
                c,
            ),
    ensures
        forall|r: int, c: int|
            0 <= r < 4 && 0 <= c < 4 ==> mul_entry(tm, rm, r, c) == view_tr_entry(t, r, c),
        mul_ok(tm, rm) <==> (forall|r: int, c: int|
            0 <= r < 4 && 0 <= c < 4 ==> view_tr_entry_ok(t, r, c)),
{
    assert forall|r: int, c: int| 0 <= r < 4 && 0 <= c < 4 implies mul_entry(tm, rm, r, c)
        == view_tr_entry(t, r, c) && (mul_entry_ok(tm, rm, r, c) <==> view_tr_entry_ok(
        t,
        r,
        c,
    )) by {
        assert(mat_entry(tm, r, 0) == trans_entry(neg_value(t.position), r, 0));
        assert(mat_entry(tm, r, 1) == trans_entry(neg_value(t.position), r, 1));
        assert(mat_entry(tm, r, 2) == trans_entry(neg_value(t.position), r, 2));
        assert(mat_entry(tm, r, 3) == trans_entry(neg_value(t.position), r, 3));
        assert(mat_entry(rm, 0, c) == quat_entry(conj_value(t.rotation), 0, c));
        assert(mat_entry(rm, 1, c) == quat_entry(conj_value(t.rotation), 1, c));
        assert(mat_entry(rm, 2, c) == quat_entry(conj_value(t.rotation), 2, c));
        assert(mat_entry(rm, 3, c) == quat_entry(conj_value(t.rotation), 3, c));
    }
    if mul_ok(tm, rm) {
        assert forall|r: int, c: int| 0 <= r < 4 && 0 <= c < 4 implies view_tr_entry_ok(
            t,
            r,
            c,
        ) by {
            assert(mul_entry_ok(tm, rm, r, c));
        }
    }
    if forall|r: int, c: int| 0 <= r < 4 && 0 <= c < 4 ==> view_tr_entry_ok(t, r, c) {
        assert forall|r: int, c: int| 0 <= r < 4 && 0 <= c < 4 implies mul_entry_ok(
            tm,
            rm,
            r,
            c,
        ) by {
            assert(view_tr_entry_ok(t, r, c));
        }
    }
}

/// If `a` is the first view product and `sm` the reciprocal scale matrix,
/// their product is `view_entry` pointwise.
proof fn lemma_view_mul(t: Transform, a: Mat4Fp, sm: Mat4Fp)
    requires
        forall|r: int, c: int|
            0 <= r < 4 && 0 <= c < 4 ==> mat_entry(a, r, c) == view_tr_entry(t, r, c),
        forall|r: int, c: int|
            0 <= r < 4 && 0 <= c < 4 ==> mat_entry(sm, r, c) == scale_entry(
                recip_value(t.scale),
                r,
                c,
            ),
    ensures
        forall|r: int, c: int|
            0 <= r < 4 && 0 <= c < 4 ==> mul_entry(a, sm, r, c) == view_entry(t, r, c),
        mul_ok(a, sm) <==> (forall|r: int, c: int|
            0 <= r < 4 && 0 <= c < 4 ==> view_entry_ok(t, r, c)),
{
    assert forall|r: int, c: int| 0 <= r < 4 && 0 <= c < 4 implies mul_entry(a, sm, r, c)
        == view_entry(t, r, c) && (mul_entry_ok(a, sm, r, c) <==> view_entry_ok(t, r, c)) by {
        assert(mat_entry(a, r, 0) == view_tr_entry(t, r, 0));
        assert(mat_entry(a, r, 1) == view_tr_entry(t, r, 1));
        assert(mat_entry(a, r, 2) == view_tr_entry(t, r, 2));
        assert(mat_entry(a, r, 3) == view_tr_entry(t, r, 3));
        assert(mat_entry(sm, 0, c) == scale_entry(recip_value(t.scale), 0, c));
        assert(mat_entry(sm, 1, c) == scale_entry(recip_value(t.scale), 1, c));
        assert(mat_entry(sm, 2, c) == scale_entry(recip_value(t.scale), 2, c));
        assert(mat_entry(sm, 3, c) == scale_entry(recip_value(t.scale), 3, c));
    }
    if mul_ok(a, sm) {
        assert forall|r: int, c: int| 0 <= r < 4 && 0 <= c < 4 implies view_entry_ok(t, r, c) by {
            assert(mul_entry_ok(a, sm, r, c));
        }
    }
    if forall|r: int, c: int| 0 <= r < 4 && 0 <= c < 4 ==> view_entry_ok(t, r, c) {
        assert forall|r: int, c: int| 0 <= r < 4 && 0 <= c < 4 implies mul_entry_ok(
            a,
            sm,
            r,
            c,
        ) by {
            assert(view_entry_ok(t, r, c));
        }
    }
}

/// A transform plus a precomputed projection matrix.
pub struct Camera {
    transform: Transform,
    projection: Mat4Fp,
}

impl Camera {
    /// The camera's transform, for contracts.
    pub closed spec fn spec_transform(&self) -> Transform {
        self.transform
    }

    /// The camera's projection matrix, for contracts.
    pub closed spec fn spec_projection(&self) -> Mat4Fp {
        self.projection
    }

    /// A camera at the identity transform with the given precomputed
    /// projection matrix.
    pub fn new(projection: Mat4Fp) -> (camera: Camera)
        ensures
            camera.spec_transform() == crate::transform::identity_value(),
            camera.spec_projection() == projection,
    {
        Camera { transform: Transform::identity(), projection }
    }

    /// The camera's transform.
    pub fn transform(&self) -> (t: &Transform)
        ensures
            *t == self.spec_transform(),
    {
        &self.transform
    }

    /// Replaces the camera's transform.
    pub fn transform_change(&mut self, t: Transform)
        ensures
            final(self).spec_transform() == t,
            final(self).spec_projection() == old(self).spec_projection(),
    {
        self.transform = t;
    }

    /// The projection matrix.
    pub fn projection(&self) -> (m: Mat4Fp)
        ensures
            m == self.spec_projection(),
    {
        self.projection
    }

    /// The view matrix: the inverse of the transform's matrix, built as
    /// `Translation(-p) * Rotation(conj q) * Scale(1/s)`. `None` exactly
    /// when a component cannot be inverted (zero scale) or a step leaves
    /// the 32-bit range.
    pub fn view(&self) -> (result: Option<Mat4Fp>)
        ensures
            result is Some <==> view_ok(self.spec_transform()),
            result matches Some(m) ==> forall|r: int, c: int|
                0 <= r < 4 && 0 <= c < 4 ==> mat_entry(m, r, c) == view_entry(
                    self.spec_transform(),
                    r,
                    c,
                ),
    {
        let t = &self.transform;
        let nx = match fp_neg(t.position.x) {
            Some(v) => v,
            None => {
                return None;
            },
        };
        let ny = match fp_neg(t.position.y) {
            Some(v) => v,
            None => {
                return None;
            },
        };
        let nz = match fp_neg(t.position.z) {
            Some(v) => v,
            None => {
                return None;
            },
        };
        let cx = match fp_neg(t.rotation.x) {
            Some(v) => v,
            None => {
                return None;
            },
        };
        let cy = match fp_neg(t.rotation.y) {
            Some(v) => v,
            None => {
                return None;
            },
        };
        let cz = match fp_neg(t.rotation.z) {
            Some(v) => v,
            None => {
                return None;
            },
        };
        let rx = match fp_recip(t.scale.x) {
            Some(v) => v,
            None => {
                return None;
            },
        };
        let ry = match fp_recip(t.scale.y) {
            Some(v) => v,
            None => {
                return None;
            },
        };
        let rz = match fp_recip(t.scale.z) {
            Some(v) => v,
            None => {
                return None;
            },
        };
        let conj = QuatFp { w: t.rotation.w, x: cx, y: cy, z: cz };
        let rm = match mat4_from_quat(&conj) {
            Some(v) => v,
            None => {
                return None;
            },
        };
        let tm = mat4_from_translation(&Vec3Fp { x: nx, y: ny, z: nz });
        proof {
            lemma_view_tr_mul(*t, tm, rm);
        }
        let a = match mat4_mul(&tm, &rm) {
            Some(v) => v,
            None => {
                return None;
            },
        };
        let sm = mat4_from_nonuniform_scale(&Vec3Fp { x: rx, y: ry, z: rz });
        proof {
            lemma_view_mul(*t, a, sm);
        }
        let m = match mat4_mul(&a, &sm) {
            Some(v) => v,
            None => {
                return None;
            },
        };
        Some(m)
    }
}

} // verus!
