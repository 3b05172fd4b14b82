//! The model component: geometry plus the transforms to draw it with.
//!
//! A model recomputes `projection * view * global_transform` every time
//! it is rendered and pushes it into each of its geometries' parameters
//! under the fixed name `model_view_proj`, then draws them.

use crate::camera::{view_entry, view_ok, Camera};
use crate::fixed::{fp_fits, fp_mul_value};
use crate::gl_commands::GlCommand;
use crate::math::{mat4_mul, mat_entry, mul_entry, mul_entry_ok, mul_ok, Mat4Fp};
use crate::opengl::{clear_count, draws_of, lemma_cmd_shape_concat, mat4_write_fits, OpenGLRenderer,
    RenderError};
use crate::renderer::{geometry_valid, Geometry, Renderer};
use crate::shader_params::{groups_have, schema_set, ParamError, ParamValue};
use crate::transform::{compose_ok, compose_value, identity_value, to_matrix_entry, to_matrix_ok,
    Transform};
use vstd::prelude::*;

verus! {

/// Errors of scene-graph operations.
#[derive(Clone, Debug)]
pub enum SceneError {
    /// A transform or matrix computation left the 32-bit range.
    TransformOverflow,
    /// A geometry's schema lacks a parameter the scene writes.
    UnknownParameter(String),
    /// The backend refused a draw or upload.
    Render(RenderError),
}


/// Entry `(r, c)` of `projection * view`.
pub open spec fn pv_entry(camera: Camera, r: int, c: int) -> int {
    fp_mul_value(
        mat_entry(camera.spec_projection(), r, 0),
        view_entry(camera.spec_transform(), 0, c),
    ) + fp_mul_value(
        mat_entry(camera.spec_projection(), r, 1),
        view_entry(camera.spec_transform(), 1, c),
    ) + fp_mul_value(
        mat_entry(camera.spec_projection(), r, 2),
        view_entry(camera.spec_transform(), 2, c),
    ) + fp_mul_value(
        mat_entry(camera.spec_projection(), r, 3),
        view_entry(camera.spec_transform(), 3, c),
    )
}

/// Whether entry `(r, c)` of `projection * view` can be computed.
pub open spec fn pv_entry_ok(camera: Camera, r: int, c: int) -> bool {
    &&& fp_fits(
        fp_mul_value(
            mat_entry(camera.spec_projection(), r, 0),
            view_entry(camera.spec_transform(), 0, c),
        ),
    )
    &&& fp_fits(
        fp_mul_value(
            mat_entry(camera.spec_projection(), r, 1),
            view_entry(camera.spec_transform(), 1, c),
        ),
    )
    &&& fp_fits(
        fp_mul_value(
            mat_entry(camera.spec_projection(), r, 2),
            view_entry(camera.spec_transform(), 2, c),
        ),
    )
    &&& fp_fits(
        fp_mul_value(
            mat_entry(camera.spec_projection(), r, 3),
            view_entry(camera.spec_transform(), 3, c),
        ),
    )
    &&& fp_fits(pv_entry(camera, r, c))
}

/// Entry `(r, c)` of `projection * view * global_transform`.
pub open spec fn mvp_entry(camera: Camera, t: Transform, r: int, c: int) -> int {
    fp_mul_value(pv_entry(camera, r, 0), to_matrix_entry(t, 0, c)) + fp_mul_value(
        pv_entry(camera, r, 1),
        to_matrix_entry(t, 1, c),
    ) + fp_mul_value(pv_entry(camera, r, 2), to_matrix_entry(t, 2, c)) + fp_mul_value(
        pv_entry(camera, r, 3),
        to_matrix_entry(t, 3, c),
    )
}

/// Whether entry `(r, c)` of the full matrix can be computed.
pub open spec fn mvp_entry_ok(camera: Camera, t: Transform, r: int, c: int) -> bool {
    &&& fp_fits(fp_mul_value(pv_entry(camera, r, 0), to_matrix_entry(t, 0, c)))
    &&& fp_fits(fp_mul_value(pv_entry(camera, r, 1), to_matrix_entry(t, 1, c)))
    &&& fp_fits(fp_mul_value(pv_entry(camera, r, 2), to_matrix_entry(t, 2, c)))
    &&& fp_fits(fp_mul_value(pv_entry(camera, r, 3), to_matrix_entry(t, 3, c)))
    &&& fp_fits(mvp_entry(camera, t, r, c))
}

/// If `vm` is the camera's view matrix, multiplying the projection by it
/// is `pv_entry` pointwise.
proof fn lemma_pv_mul(camera: Camera, vm: Mat4Fp)
    requires
        forall|r: int, c: int|
            0 <= r < 4 && 0 <= c < 4 ==> mat_entry(vm, r, c) == view_entry(
                camera.spec_transform(),
                r,
                c,
            ),
    ensures
        forall|r: int, c: int|
            0 <= r < 4 && 0 <= c < 4 ==> mul_entry(camera.spec_projection(), vm, r, c) == pv_entry(
                camera,
                r,
                c,
            ),
        mul_ok(camera.spec_projection(), vm) <==> (forall|r: int, c: int|
            0 <= r < 4 && 0 <= c < 4 ==> pv_entry_ok(camera, r, c)),
{
    assert forall|r: int, c: int| 0 <= r < 4 && 0 <= c < 4 implies mul_entry(
        camera.spec_projection(),
        vm,
        r,
        c,
    ) == pv_entry(camera, r, c) && (mul_entry_ok(camera.spec_projection(), vm, r, c)
        <==> pv_entry_ok(camera, r, c)) by {
        assert(mat_entry(vm, 0, c) == view_entry(camera.spec_transform(), 0, c));
        assert(mat_entry(vm, 1, c) == view_entry(camera.spec_transform(), 1, c));
        assert(mat_entry(vm, 2, c) == view_entry(camera.spec_transform(), 2, c));
        assert(mat_entry(vm, 3, c) == view_entry(camera.spec_transform(), 3, c));
    }
    if mul_ok(camera.spec_projection(), vm) {
        assert forall|r: int, c: int| 0 <= r < 4 && 0 <= c < 4 implies pv_entry_ok(
            camera,
            r,
            c,
        ) by {
            assert(mul_entry_ok(camera.spec_projection(), vm, r, c));
        }
    }
    if forall|r: int, c: int| 0 <= r < 4 && 0 <= c < 4 ==> pv_entry_ok(camera, r, c) {
        assert forall|r: int, c: int| 0 <= r < 4 && 0 <= c < 4 implies mul_entry_ok(
            camera.spec_projection(),
            vm,
            r,
            c,
        ) by {
            assert(pv_entry_ok(camera, r, c));
        }
    }
}

/// If `pvm` is `projection * view` and `mm` the global transform's
/// matrix, their product is `mvp_entry` pointwise.
proof fn lemma_mvp_mul(camera: Camera, t: Transform, pvm: Mat4Fp, mm: Mat4Fp)
    requires
        forall|r: int, c: int|
            0 <= r < 4 && 0 <= c < 4 ==> mat_entry(pvm, r, c) == pv_entry(camera, r, c),
        forall|r: int, c: int|
            0 <= r < 4 && 0 <= c < 4 ==> mat_entry(mm, r, c) == to_matrix_entry(t, r, c),
    ensures
        forall|r: int, c: int|
            0 <= r < 4 && 0 <= c < 4 ==> mul_entry(pvm, mm, r, c) == mvp_entry(camera, t, r, c),
        mul_ok(pvm, mm) <==> (forall|r: int, c: int|
            0 <= r < 4 && 0 <= c < 4 ==> mvp_entry_ok(camera, t, r, c)),
{
    assert forall|r: int, c: int| 0 <= r < 4 && 0 <= c < 4 implies mul_entry(pvm, mm, r, c)
        == mvp_entry(camera, t, r, c) && (mul_entry_ok(pvm, mm, r, c) <==> mvp_entry_ok(
        camera,
        t,
        r,
        c,
    )) by {
        assert(mat_entry(pvm, r, 0) == pv_entry(camera, r, 0));
        assert(mat_entry(pvm, r, 1) == pv_entry(camera, r, 1));
        assert(mat_entry(pvm, r, 2) == pv_entry(camera, r, 2));
        assert(mat_entry(pvm, r, 3) == pv_entry(camera, r, 3));
        assert(mat_entry(mm, 0, c) == to_matrix_entry(t, 0, c));
        assert(mat_entry(mm, 1, c) == to_matrix_entry(t, 1, c));
        assert(mat_entry(mm, 2, c) == to_matrix_entry(t, 2, c));
        assert(mat_entry(mm, 3, c) == to_matrix_entry(t, 3, c));
    }
    if mul_ok(pvm, mm) {
        assert forall|r: int, c: int| 0 <= r < 4 && 0 <= c < 4 implies mvp_entry_ok(
            camera,
            t,
            r,
            c,
        ) by {
            assert(mul_entry_ok(pvm, mm, r, c));
        }
    }
    if forall|r: int, c: int| 0 <= r < 4 && 0 <= c < 4 ==> mvp_entry_ok(camera, t, r, c) {
        assert forall|r: int, c: int| 0 <= r < 4 && 0 <= c < 4 implies mul_entry_ok(
            pvm,
            mm,
            r,
            c,
        ) by {
            assert(mvp_entry_ok(camera, t, r, c));
        }
    }
}

/// The draw commands a model's geometries produce, in order: one draw per
/// geometry with its index buffer's count and width.
pub open spec fn model_draws(renderer: OpenGLRenderer, geoms: Seq<Geometry>) -> Seq<GlCommand>
    decreases geoms.len(),
{
    if geoms.len() == 0 {
        Seq::empty()
    } else {
        seq![
            GlCommand::DrawTriangles {
                count: renderer.ibos@[geoms[0].gl().ibo as int].count,
                index_type: renderer.ibos@[geoms[0].gl().ibo as int].itype,
            },
        ] + model_draws(renderer, geoms.skip(1))
    }
}


/// The draw list reads only the index-buffer pool and each geometry's
/// index-buffer handle, so it agrees across states that keep those.
pub proof fn lemma_model_draws_congruence(
    r1: OpenGLRenderer,
    r2: OpenGLRenderer,
    a: Seq<Geometry>,
    b: Seq<Geometry>,
)
    requires
        r1.ibos@ == r2.ibos@,
        a.len() == b.len(),
        forall|k: int| 0 <= k < a.len() ==> (#[trigger] a[k]).gl().ibo == b[k].gl().ibo,
    ensures
        model_draws(r1, a) == model_draws(r2, b),
    decreases a.len(),
{
    if a.len() > 0 {
        assert(a[0].gl().ibo == b[0].gl().ibo);
        assert forall|k: int| 0 <= k < a.skip(1).len() implies (#[trigger] a.skip(1)[k]).gl().ibo
            == b.skip(1)[k].gl().ibo by {
            assert(a.skip(1)[k] == a[k + 1]);
            assert(b.skip(1)[k] == b[k + 1]);
        }
        lemma_model_draws_congruence(r1, r2, a.skip(1), b.skip(1));
        assert(model_draws(r1, a) =~= model_draws(r2, b));
    } else {
        assert(model_draws(r1, a) =~= model_draws(r2, b));
    }
}

/// The model's matrix parameter, as every geometry's schema names it.
pub open spec fn mvp_param_name() -> Seq<char> {
    "model_view_proj"@
}

/// A component owning geometry: a local transform (an offset from the
/// node it is attached to) plus the cached global transform.
pub struct Model {
    global_transform: Transform,
    local_transform: Transform,
    geometries: Vec<Geometry>,
}

/// Every geometry of the model can be drawn by the renderer.
pub open spec fn model_valid(m: Model, renderer: Renderer) -> bool {
    forall|i: int|
        0 <= i < m.spec_geometries().len() ==> geometry_valid(
            #[trigger] m.spec_geometries()[i],
            renderer,
        )
}

impl Model {
    /// The cached global transform, for contracts.
    pub closed spec fn spec_global(&self) -> Transform {
        self.global_transform
    }

    /// The component's own local transform, for contracts.
    pub closed spec fn spec_local(&self) -> Transform {
        self.local_transform
    }

    /// The owned geometries, for contracts.
    pub closed spec fn spec_geometries(&self) -> Seq<Geometry> {
        self.geometries@
    }

    /// A model at the given global transform, with the identity local
    /// offset, owning `geometries`.
    pub fn new(global_transform: &Transform, geometries: Vec<Geometry>) -> (m: Model)
        ensures
            m.spec_global() == *global_transform,
            m.spec_local() == identity_value(),
            m.spec_geometries() == geometries@,
    {
        Model {
            global_transform: *global_transform,
            local_transform: Transform::identity(),
            geometries,
        }
    }

    /// Recomputes the cached global transform as the node's new global
    /// transform composed with this component's local offset. Fails
    /// exactly when the composition leaves the 32-bit range; the cache
    /// is then unchanged.
    pub fn global_transform_change(&mut self, transform: &Transform) -> (result: Result<
        (),
        SceneError,
    >)
        ensures
            result is Ok <==> compose_ok(*transform, old(self).spec_local()),
            result is Ok ==> final(self).spec_global() == compose_value(
                *transform,
                old(self).spec_local(),
            ),
            result is Err ==> *final(self) == *old(self),
            final(self).spec_local() == old(self).spec_local(),
            final(self).spec_geometries() == old(self).spec_geometries(),
    {
        match transform.compose(&self.local_transform) {
            Some(t) => {
                self.global_transform = t;
                Ok(())
            },
            None => Err(SceneError::TransformOverflow),
        }
    }

    /// The component's local transform.
    pub fn local_transform(&self) -> (t: &Transform)
        ensures
            *t == self.spec_local(),
    {
        &self.local_transform
    }

    /// The component's local transform, for updating.
    pub fn local_transform_mut(&mut self) -> (t: &mut Transform)
        ensures
            *t == old(self).spec_local(),
            final(self).spec_local() == *final(t),
            final(self).spec_global() == old(self).spec_global(),
            final(self).spec_geometries() == old(self).spec_geometries(),
    {
        &mut self.local_transform
    }

    /// Computes `projection * view * global_transform` and pushes it
    /// into every owned geometry under `model_view_proj`, then draws
    /// each geometry, in order. Recomputed on every call,
    /// unconditionally. When every geometry's dirty log is empty on
    /// entry (the steady state between frames), rendering succeeds
    /// exactly when the matrices can be computed, every schema holds the
    /// parameter, and the matrix fits its reflected member.
    pub fn render(
        &mut self,
        renderer: &mut Renderer,
        camera: &Camera,
        cmds: &mut Vec<GlCommand>,
    ) -> (result: Result<(), SceneError>)
        requires
            old(renderer).wf(),
            model_valid(*old(self), *old(renderer)),
        ensures
            final(renderer).wf(),
            final(renderer).gl().vbos@ == old(renderer).gl().vbos@,
            final(renderer).gl().ibos@ == old(renderer).gl().ibos@,
            final(renderer).gl().vaos@ == old(renderer).gl().vaos@,
            final(renderer).gl().progs@.len() == old(renderer).gl().progs@.len(),
            final(renderer).gl().next_id == old(renderer).gl().next_id,
            forall|p: int|
                0 <= p < old(renderer).gl().progs@.len() ==> {
                    &&& (#[trigger] final(renderer).gl().progs@[p]).uniform_blocks@.len() == old(renderer).gl().progs@[p].uniform_blocks@.len()
                    &&& forall|b: int|
                        0 <= b < old(renderer).gl().progs@[p].uniform_blocks@.len() ==> {
                            &&& (#[trigger] final(renderer).gl().progs@[p].uniform_blocks@[b]).uniforms@ == old(renderer).gl().progs@[p].uniform_blocks@[b].uniforms@
                            &&& final(renderer).gl().progs@[p].uniform_blocks@[b].size == old(renderer).gl().progs@[p].uniform_blocks@[b].size
                        }
                },
            model_valid(*final(self), *final(renderer)),
            final(self).spec_global() == old(self).spec_global(),
            final(self).spec_local() == old(self).spec_local(),
            final(self).spec_geometries().len() == old(self).spec_geometries().len(),
            final(cmds)@.len() >= old(cmds)@.len(),
            final(cmds)@.subrange(0, old(cmds)@.len() as int) == old(cmds)@,
            clear_count(final(cmds)@.skip(old(cmds)@.len() as int)) == 0,
            result is Ok ==> view_ok(camera.spec_transform()) && to_matrix_ok(
                old(self).spec_global(),
            ),
            result is Ok ==> draws_of(final(cmds)@.skip(old(cmds)@.len() as int)) == model_draws(
                old(renderer).gl(),
                old(self).spec_geometries(),
            ),
            result is Ok ==> forall|k: int|
                0 <= k < old(self).spec_geometries().len() ==> {
                    let g0 = #[trigger] old(self).spec_geometries()[k];
                    let g1 = final(self).spec_geometries()[k];
                    &&& g1.gl().vbo == g0.gl().vbo
                    &&& g1.gl().ibo == g0.gl().ibo
                    &&& g1.gl().vao == g0.gl().vao
                    &&& g1.gl().program == g0.gl().program
                    &&& g1.gl().params.spec_changes() == Seq::<Seq<char>>::empty()
                    &&& exists|v: ParamValue|
                        schema_set(
                            g0.gl().params.spec_groups(),
                            g1.gl().params.spec_groups(),
                            mvp_param_name(),
                            v,
                        ) && (v matches ParamValue::Mat4(arr) && forall|r: int, c: int|
                            0 <= r < 4 && 0 <= c < 4 ==> arr@[4 * r + c] as int == mvp_entry(
                                *camera,
                                old(self).spec_global(),
                                r,
                                c,
                            ))
                },
            (forall|k: int|
                0 <= k < old(self).spec_geometries().len() ==> (#[trigger] old(self).spec_geometries()[k]).gl().params.spec_changes().len() == 0) ==> (result is Ok
                <==> {
                &&& view_ok(camera.spec_transform())
                &&& to_matrix_ok(old(self).spec_global())
                &&& forall|r: int, c: int|
                    0 <= r < 4 && 0 <= c < 4 ==> pv_entry_ok(*camera, r, c)
                &&& forall|r: int, c: int|
                    0 <= r < 4 && 0 <= c < 4 ==> mvp_entry_ok(
                        *camera,
                        old(self).spec_global(),
                        r,
                        c,
                    )
                &&& forall|k: int|
                    0 <= k < old(self).spec_geometries().len() ==> groups_have(
                        (#[trigger] old(self).spec_geometries()[k]).gl().params.spec_groups(),
                        mvp_param_name(),
                    )
                &&& forall|k: int|
                    0 <= k < old(self).spec_geometries().len() ==> mat4_write_fits(
                        old(renderer).gl().progs@[(#[trigger] old(self).spec_geometries()[
                            k
                        ]).gl().program as int].uniform_blocks@,
                        mvp_param_name(),
                    )
            }),
    {
        let ghost geoms0 = old(self).spec_geometries();
        let ghost r0 = old(renderer).gl();
        let ghost n0 = old(cmds)@.len() as int;
        let ghost all_clean = forall|k: int|
            0 <= k < geoms0.len() ==> (#[trigger] geoms0[k]).gl().params.spec_changes().len()
                == 0;
        let proj = camera.projection();
        let view = match camera.view() {
            Some(v) => v,
            None => {
                proof {
                    assert(cmds@.skip(n0) =~= Seq::<GlCommand>::empty());
                    assert(clear_count(Seq::<GlCommand>::empty()) == 0);
                }
                return Err(SceneError::TransformOverflow);
            },
        };
        let model_matrix = match self.global_transform.to_matrix() {
            Some(m) => m,
            None => {
                proof {
                    assert(cmds@.skip(n0) =~= Seq::<GlCommand>::empty());
                    assert(clear_count(Seq::<GlCommand>::empty()) == 0);
                }
                return Err(SceneError::TransformOverflow);
            },
        };
        proof {
            lemma_pv_mul(*camera, view);
        }
        let proj_view = match mat4_mul(&proj, &view) {
            Some(m) => m,
            None => {
                proof {
                    assert(cmds@.skip(n0) =~= Seq::<GlCommand>::empty());
                    assert(clear_count(Seq::<GlCommand>::empty()) == 0);
                }
                return Err(SceneError::TransformOverflow);
            },
        };
        proof {
            lemma_mvp_mul(*camera, self.global_transform, proj_view, model_matrix);
        }
        let mvp = match mat4_mul(&proj_view, &model_matrix) {
            Some(m) => m,
            None => {
                proof {
                    assert(cmds@.skip(n0) =~= Seq::<GlCommand>::empty());
                    assert(clear_count(Seq::<GlCommand>::empty()) == 0);
                }
                return Err(SceneError::TransformOverflow);
            },
        };
        proof {
            assert forall|r: int, c: int| 0 <= r < 4 && 0 <= c < 4 implies mvp.m@[4 * r + c]
                as int == mvp_entry(*camera, self.global_transform, r, c) by {
                assert(mat_entry(mvp, r, c) == mul_entry(proj_view, model_matrix, r, c));
            }
            assert forall|k: int| 0 <= k < self.geometries@.len() implies geometry_valid(
                #[trigger] self.geometries@[k],
                *renderer,
            ) by {
                assert(geometry_valid(old(self).spec_geometries()[k], *old(renderer)));
            }
            assert(cmds@.skip(n0) =~= Seq::<GlCommand>::empty());
            assert(draws_of(Seq::<GlCommand>::empty()) == Seq::<GlCommand>::empty());
            assert(clear_count(Seq::<GlCommand>::empty()) == 0);
            assert(geoms0.skip(0) =~= geoms0);
        }
        let mut i: usize = 0;
        while i < self.geometries.len()
            invariant
                i <= self.geometries@.len(),
                renderer.wf(),
                old(renderer).wf(),
                geoms0 == old(self).spec_geometries(),
                r0 == old(renderer).gl(),
                n0 == old(cmds)@.len() as int,
                all_clean == (forall|k: int|
                    0 <= k < geoms0.len() ==> (#[trigger] geoms0[
                        k
                    ]).gl().params.spec_changes().len() == 0),
                renderer.gl().vbos@ == r0.vbos@,
                renderer.gl().ibos@ == r0.ibos@,
                renderer.gl().vaos@ == r0.vaos@,
                renderer.gl().progs@.len() == r0.progs@.len(),
                renderer.gl().next_id == r0.next_id,
                forall|p: int|
                    0 <= p < r0.progs@.len() ==> {
                        &&& (#[trigger] renderer.gl().progs@[p]).uniform_blocks@.len()
                            == r0.progs@[p].uniform_blocks@.len()
                        &&& forall|b: int|
                            0 <= b < r0.progs@[p].uniform_blocks@.len() ==> {
                                &&& (#[trigger] renderer.gl().progs@[p].uniform_blocks@[
                                    b
                                ]).uniforms@ == r0.progs@[p].uniform_blocks@[b].uniforms@
                                &&& renderer.gl().progs@[p].uniform_blocks@[b].size
                                    == r0.progs@[p].uniform_blocks@[b].size
                            }
                    },
                self.geometries@.len() == geoms0.len(),
                forall|k: int|
                    i <= k < geoms0.len() ==> #[trigger] self.geometries@[k] == geoms0[k],
                forall|k: int|
                    0 <= k < self.geometries@.len() ==> geometry_valid(
                        #[trigger] self.geometries@[k],
                        *renderer,
                    ),
                forall|k: int|
                    0 <= k < i ==> {
                        let g0 = #[trigger] geoms0[k];
                        let g1 = self.geometries@[k];
                        &&& g1.gl().vbo == g0.gl().vbo
                        &&& g1.gl().ibo == g0.gl().ibo
                        &&& g1.gl().vao == g0.gl().vao
                        &&& g1.gl().program == g0.gl().program
                        &&& g1.gl().params.spec_changes() == Seq::<Seq<char>>::empty()
                        &&& groups_have(g0.gl().params.spec_groups(), mvp_param_name())
                        &&& exists|v: ParamValue|
                            schema_set(
                                g0.gl().params.spec_groups(),
                                g1.gl().params.spec_groups(),
                                mvp_param_name(),
                                v,
                            ) && (v matches ParamValue::Mat4(arr) && forall|r: int, c: int|
                                0 <= r < 4 && 0 <= c < 4 ==> arr@[4 * r + c] as int == mvp_entry(
                                    *camera,
                                    old(self).spec_global(),
                                    r,
                                    c,
                                ))
                    },
                all_clean ==> forall|k: int|
                    0 <= k < i ==> mat4_write_fits(
                        r0.progs@[(#[trigger] geoms0[k]).gl().program as int].uniform_blocks@,
                        mvp_param_name(),
                    ),
                self.global_transform == old(self).spec_global(),
                self.local_transform == old(self).spec_local(),
                forall|r: int, c: int|
                    0 <= r < 4 && 0 <= c < 4 ==> mvp.m@[4 * r + c] as int == mvp_entry(
                        *camera,
                        old(self).spec_global(),
                        r,
                        c,
                    ),
                cmds@.len() >= n0,
                cmds@.subrange(0, n0) == old(cmds)@,
                clear_count(cmds@.skip(n0)) == 0,
                draws_of(cmds@.skip(n0)) + model_draws(r0, geoms0.skip(i as int)) == model_draws(
                    r0,
                    geoms0,
                ),
            decreases self.geometries@.len() - i,
        {
            let ghost g_pre = self.geometries@[i as int];
            let geometry = &mut self.geometries[i];
            let set_result = geometry.get_mut_params().set(
                "model_view_proj",
                ParamValue::Mat4(mvp.m),
            );
            match set_result {
                Ok(()) => (),
                Err(ParamError::UnknownParameter(n)) => {
                    proof {
                        assert(!groups_have(geoms0[i as int].gl().params.spec_groups(),
                            mvp_param_name()));
                    }
                    return Err(SceneError::UnknownParameter(n));
                },
            }
            let ghost g_set = *geometry;
            proof {
                assert(schema_set(
                    g_pre.gl().params.spec_groups(),
                    g_set.gl().params.spec_groups(),
                    mvp_param_name(),
                    ParamValue::Mat4(mvp.m),
                ));
                assert(g_set.gl().params.spec_changes()
                    == g_pre.gl().params.spec_changes().push(mvp_param_name()));
            }
            let ghost renderer_pre = renderer.gl();
            let ghost cmds_pre = cmds@;
            let draw_result = renderer.draw_geometry(geometry, cmds);
            proof {
                assert(cmds@.subrange(0, cmds_pre.len() as int) == cmds_pre);
                assert forall|x: int| 0 <= x < n0 implies cmds@[x] == old(cmds)@[x] by {
                    assert(cmds@.subrange(0, cmds_pre.len() as int)[x] == cmds@[x]);
                    assert(cmds_pre.subrange(0, n0)[x] == cmds_pre[x]);
                }
                assert(cmds@.subrange(0, n0) =~= old(cmds)@);
                assert(cmds@.skip(n0) =~= cmds_pre.skip(n0) + cmds@.skip(cmds_pre.len() as int));
                lemma_cmd_shape_concat(cmds_pre.skip(n0), cmds@.skip(cmds_pre.len() as int));
            }
            proof {
                if all_clean {
                    assert(g_pre == geoms0[i as int]);
                    assert(g_pre.gl().params.spec_changes().len() == 0);
                    assert(g_set.gl().params.spec_changes() =~= seq![mvp_param_name()]);
                    crate::shader_params::lemma_same_schema_has(
                        g_pre.gl().params.spec_groups(),
                        g_set.gl().params.spec_groups(),
                        mvp_param_name(),
                    );
                    let groups1 = g_set.gl().params.spec_groups();
                    let (gi, gj) = choose|gi: int, gj: int|
                        0 <= gi < groups1.len() && 0 <= gj < groups1[gi].params@.len()
                            && groups1[gi].params@[gj].name@ == mvp_param_name();
                    assert(g_pre.gl().params.spec_groups()[gi].params@[gj].name@
                        == mvp_param_name());
                    assert(groups1[gi].params@[gj].value == ParamValue::Mat4(mvp.m));
                    assert(crate::opengl::param_value_of(groups1, mvp_param_name())
                        == ParamValue::Mat4(mvp.m));
                    let ph = g_pre.gl().program as int;
                    crate::opengl::lemma_single_mat4_step(
                        renderer_pre.progs@[ph].uniform_blocks@,
                        renderer_pre.progs@[ph].sampler2ds@,
                        groups1,
                        mvp_param_name(),
                    );
                    assert(draw_result is Ok <==> mat4_write_fits(
                        renderer_pre.progs@[ph].uniform_blocks@,
                        mvp_param_name(),
                    ));
                    assert forall|b: int|
                        0 <= b < r0.progs@[ph].uniform_blocks@.len() implies (
                    #[trigger] renderer_pre.progs@[ph].uniform_blocks@[
                        b
                    ]).buffer_data.bytes@.len() == r0.progs@[ph].uniform_blocks@[
                        b
                    ].buffer_data.bytes@.len() by {
                        assert(crate::opengl::block_wf(
                            renderer_pre.progs@[ph].uniform_blocks@[b],
                        ));
                        assert(crate::opengl::block_wf(r0.progs@[ph].uniform_blocks@[b]));
                    }
                    crate::opengl::lemma_mat4_write_fits_structure(
                        renderer_pre.progs@[ph].uniform_blocks@,
                        r0.progs@[ph].uniform_blocks@,
                        mvp_param_name(),
                    );
                    assert(draw_result is Ok <==> mat4_write_fits(
                        r0.progs@[ph].uniform_blocks@,
                        mvp_param_name(),
                    ));
                }
            }
            match draw_result {
                Ok(()) => (),
                Err(e) => {
                    return Err(SceneError::Render(e));
                },
            }
            proof {
                let ghost appended = cmds@.skip(cmds_pre.len() as int);
                assert(draws_of(appended) == seq![
                    GlCommand::DrawTriangles {
                        count: renderer_pre.ibos@[g_pre.gl().ibo as int].count,
                        index_type: renderer_pre.ibos@[g_pre.gl().ibo as int].itype,
                    },
                ]);
                assert(geoms0.skip(i as int)[0] == geoms0[i as int]);
                assert(geoms0.skip(i as int).skip(1) =~= geoms0.skip(i + 1));
                assert(model_draws(r0, geoms0.skip(i as int)) == seq![
                    GlCommand::DrawTriangles {
                        count: r0.ibos@[geoms0[i as int].gl().ibo as int].count,
                        index_type: r0.ibos@[geoms0[i as int].gl().ibo as int].itype,
                    },
                ] + model_draws(r0, geoms0.skip(i + 1)));
                assert(draws_of(cmds@.skip(n0)) + model_draws(r0, geoms0.skip(i + 1))
                    =~= draws_of(cmds_pre.skip(n0)) + model_draws(r0, geoms0.skip(i as int)));
            }
            i = i + 1;
        }
        proof {
            assert(geoms0.skip(geoms0.len() as int) =~= Seq::<Geometry>::empty());
            assert(model_draws(r0, Seq::<Geometry>::empty()) == Seq::<GlCommand>::empty());
            assert(draws_of(cmds@.skip(n0)) =~= draws_of(cmds@.skip(n0)) + Seq::<
                GlCommand,
            >::empty());
        }
        Ok(())
    }
}

} // verus!
