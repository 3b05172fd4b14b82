//! The backend-agnostic renderer: a closed set of backends behind one
//! capability surface (clear, create texture, create geometry, draw), so
//! callers never depend on the concrete backend.

use crate::buffer::BufferData;
use crate::fixed::Fp;
use crate::gl_commands::GlCommand;
use crate::opengl::{apply_names, clear_count, draws_of, ApplyState, GLSampler2D, GLUniformBlock,
    OpenGLGeometry, OpenGLRenderer, OpenGLTexture, ProgramReflection, RenderError};
use crate::shader_params::ShaderParams;
use crate::texture::Texture;
use crate::vertex_layout::VertexLayoutDescription;
use crate::IndexType;
use vstd::prelude::*;

verus! {

/// Error of renderer selection.
#[derive(Clone, Debug)]
pub enum RendererError {
    /// No backend is registered under the requested name.
    UnsupportedRenderer(String),
}

/// Backend-owned geometry, one variant per backend.
pub enum Geometry {
    OpenGL(OpenGLGeometry),
}

impl Geometry {
    /// The underlying backend geometry, for contracts.
    pub open spec fn gl(&self) -> OpenGLGeometry {
        match *self {
            Geometry::OpenGL(ref g) => *g,
        }
    }

    /// The vertex layout the geometry was created with.
    pub fn get_vertex_layout_description(&self) -> (layout: &VertexLayoutDescription)
        ensures
            *layout == self.gl().layout_desc,
    {
        match self {
            Geometry::OpenGL(g) => &g.layout_desc,
        }
    }

    /// The geometry's parameters.
    pub fn get_params(&self) -> (params: &ShaderParams)
        ensures
            *params == self.gl().params,
    {
        match self {
            Geometry::OpenGL(g) => &g.params,
        }
    }

    /// The geometry's parameters, for updating.
    pub fn get_mut_params(&mut self) -> (params: &mut ShaderParams)
        ensures
            *params == old(self).gl().params,
            final(self).gl().params == *final(params),
            final(self).gl().vbo == old(self).gl().vbo,
            final(self).gl().ibo == old(self).gl().ibo,
            final(self).gl().vao == old(self).gl().vao,
            final(self).gl().program == old(self).gl().program,
            final(self).gl().layout_desc == old(self).gl().layout_desc,
    {
        match self {
            Geometry::OpenGL(g) => &mut g.params,
        }
    }
}

/// A renderer: a closed set of backends.
pub enum Renderer {
    OpenGL(OpenGLRenderer),
}

/// A geometry's handles point into the renderer's pools and its
/// parameters are well formed, so it can be drawn.
pub open spec fn geometry_valid(geom: Geometry, renderer: Renderer) -> bool {
    &&& geom.gl().vbo < renderer.gl().vbos@.len()
    &&& geom.gl().ibo < renderer.gl().ibos@.len()
    &&& geom.gl().vao < renderer.gl().vaos@.len()
    &&& geom.gl().program < renderer.gl().progs@.len()
    &&& geom.gl().params.wf()
}

impl Renderer {
    /// The underlying backend, for contracts.
    pub open spec fn gl(&self) -> OpenGLRenderer {
        match *self {
            Renderer::OpenGL(ref r) => *r,
        }
    }

    /// The renderer's invariant.
    pub open spec fn wf(&self) -> bool {
        self.gl().wf()
    }

    /// Emits the command clearing the color buffer.
    pub fn clear(&mut self, r: Fp, g: Fp, b: Fp, a: Fp, cmds: &mut Vec<GlCommand>)
        requires
            old(self).wf(),
        ensures
            final(self).wf(),
            final(self).gl() == old(self).gl(),
            final(cmds)@ == old(cmds)@.push(GlCommand::Clear { r, g, b, a }),
    {
        match self {
            Renderer::OpenGL(gl) => gl.clear(r, g, b, a, cmds),
        }
    }

    /// Creates a texture from a decoded image; the format is inferred
    /// from the image's channel layout.
    pub fn create_texture_from_image(
        &mut self,
        image_data: &image::DynamicImage,
        cmds: &mut Vec<GlCommand>,
    ) -> (result: Result<OpenGLTexture, RenderError>)
        requires
            old(self).wf(),
        ensures
            final(self).wf(),
            final(self).gl().vbos@ == old(self).gl().vbos@,
            final(self).gl().ibos@ == old(self).gl().ibos@,
            final(self).gl().vaos@ == old(self).gl().vaos@,
            final(self).gl().progs@ == old(self).gl().progs@,
            final(cmds)@.subrange(0, old(cmds)@.len() as int) == old(cmds)@,
            result matches Ok(t) ==> {
                &&& crate::opengl::format_for_layout(t.spec_pixel_layout()) == Some(
                    t.spec_format(),
                )
                &&& t.spec_filtering() == crate::texture::FilteringMethod::Nearest
                &&& t.spec_handle() == old(self).gl().next_id
                &&& final(self).gl().next_id == old(self).gl().next_id + 1
                &&& final(cmds)@[old(cmds)@.len() as int] == GlCommand::CreateTexture(
                    old(self).gl().next_id,
                )
                &&& final(cmds)@.last() == GlCommand::TexParameterNearest
                &&& final(self).gl().state.spec_tex_units() == old(
                    self,
                ).gl().state.spec_tex_units().insert(0u32, old(self).gl().next_id)
            },
            result matches Err(e) ==> {
                &&& (e == RenderError::UnsupportedImageLayout || e == RenderError::TooManyObjects)
                &&& (e == RenderError::TooManyObjects ==> old(self).gl().next_id == u32::MAX)
                &&& final(self).gl().next_id == old(self).gl().next_id
                &&& final(cmds)@ == old(cmds)@
            },
    {
        match self {
            Renderer::OpenGL(gl) => {
                let result = gl.create_texture_from_image(image_data, cmds);
                proof {
                    assert(final(cmds)@.subrange(0, old(cmds)@.len() as int) =~= old(cmds)@);
                }
                result
            },
        }
    }

    /// Creates geometry from raw vertex and index bytes, a layout, two
    /// shader sources, and the linked program's reflection. On success
    /// the new geometry's handles are fresh: they point one past every
    /// handle of any geometry created before, so geometries from equal
    /// inputs are still independent objects.
    pub fn create_geometry(
        &mut self,
        vertex_data: &BufferData,
        index_data: &BufferData,
        layout: &VertexLayoutDescription,
        index_type: IndexType,
        vert_src: &str,
        frag_src: &str,
        reflection: &ProgramReflection,
        cmds: &mut Vec<GlCommand>,
    ) -> (result: Result<Geometry, RenderError>)
        requires
            old(self).wf(),
            layout.wf(),
            layout.spec_stride() <= usize::MAX,
            layout.elements@.len() <= u32::MAX,
        ensures
            final(self).wf(),
            final(self).gl().vbos@.len() >= old(self).gl().vbos@.len(),
            final(self).gl().ibos@.len() >= old(self).gl().ibos@.len(),
            final(self).gl().vaos@.len() >= old(self).gl().vaos@.len(),
            final(self).gl().progs@.len() >= old(self).gl().progs@.len(),
            final(cmds)@.subrange(0, old(cmds)@.len() as int) == old(cmds)@,
            result matches Ok(g) ==> {
                &&& g.gl().vbo == old(self).gl().vbos@.len()
                &&& g.gl().ibo == old(self).gl().ibos@.len()
                &&& g.gl().vao == old(self).gl().vaos@.len()
                &&& g.gl().program == old(self).gl().progs@.len()
                &&& final(self).gl().vbos@.len() == old(self).gl().vbos@.len() + 1
                &&& final(self).gl().ibos@.len() == old(self).gl().ibos@.len() + 1
                &&& final(self).gl().vaos@.len() == old(self).gl().vaos@.len() + 1
                &&& final(self).gl().progs@.len() == old(self).gl().progs@.len() + 1
                &&& geometry_valid(g, *final(self))
                &&& final(self).gl().next_id == old(self).gl().next_id + 4
                    + reflection.blocks@.len()
                &&& g.gl().params.spec_changes() == Seq::<Seq<char>>::empty()
                &&& g.gl().layout_desc.elements@ == layout.elements@
                &&& crate::opengl::schema_matches(
                    final(self).gl().progs@[g.gl().program as int].uniform_blocks@,
                    final(self).gl().progs@[g.gl().program as int].sampler2ds@,
                    g.gl().params.spec_groups(),
                )
            },
            result is Ok <==> crate::opengl::reflection_blocks_valid(*reflection)
                && reflection.blocks@.len() <= u32::MAX && old(self).gl().next_id + 4
                + reflection.blocks@.len() <= u32::MAX && reflection.uniforms@.len() <= u32::MAX
                && crate::opengl::reflection_names_distinct(*reflection),
            !crate::opengl::reflection_blocks_valid(*reflection) ==> result is Err,
    {
        match self {
            Renderer::OpenGL(gl) => {
                let result = gl.create_geometry(
                    vertex_data,
                    index_data,
                    layout,
                    index_type,
                    vert_src,
                    frag_src,
                    reflection,
                    cmds,
                );
                match result {
                    Ok(g) => Ok(Geometry::OpenGL(g)),
                    Err(e) => Err(e),
                }
            },
        }
    }

    /// Applies the geometry's pending parameter changes, then draws it.
    /// Drawing one geometry never touches another's parameter values.
    pub fn draw_geometry(
        &mut self,
        geom: &mut Geometry,
        cmds: &mut Vec<GlCommand>,
    ) -> (result: Result<(), RenderError>)
        requires
            old(self).wf(),
            geometry_valid(*old(geom), *old(self)),
        ensures
            final(self).wf(),
            final(self).gl().vbos@ == old(self).gl().vbos@,
            final(self).gl().ibos@ == old(self).gl().ibos@,
            final(self).gl().vaos@ == old(self).gl().vaos@,
            final(self).gl().next_id == old(self).gl().next_id,
            final(self).gl().progs@.len() == old(self).gl().progs@.len(),
            geometry_valid(*final(geom), *final(self)),
            final(geom).gl().vbo == old(geom).gl().vbo,
            final(geom).gl().ibo == old(geom).gl().ibo,
            final(geom).gl().vao == old(geom).gl().vao,
            final(geom).gl().program == old(geom).gl().program,
            final(geom).gl().layout_desc == old(geom).gl().layout_desc,
            final(geom).gl().params.wf(),
            final(geom).gl().params.spec_groups() == old(geom).gl().params.spec_groups(),
            final(geom).gl().params.spec_changes() == Seq::<Seq<char>>::empty(),
            final(cmds)@.len() >= old(cmds)@.len(),
            final(cmds)@.subrange(0, old(cmds)@.len() as int) == old(cmds)@,
            result is Err ==> result == Result::<(), RenderError>::Err(
                RenderError::ValueOutsideBlock,
            ),
            clear_count(final(cmds)@.skip(old(cmds)@.len() as int)) == 0,
            ({
                let ph = old(geom).gl().program as int;
                let blocks0 = old(self).gl().progs@[ph].uniform_blocks@;
                let samplers0 = old(self).gl().progs@[ph].sampler2ds@;
                let st0 = (
                    blocks0.map_values(|b: GLUniformBlock| b.buffer_data.bytes@),
                    samplers0.map_values(|sm: GLSampler2D| sm.tex_id),
                    Seq::<usize>::empty(),
                    Seq::<GlCommand>::empty(),
                    true,
                );
                let stf = apply_names(
                    blocks0,
                    samplers0,
                    old(geom).gl().params.spec_groups(),
                    old(geom).gl().params.spec_changes(),
                    st0,
                );
                &&& (result is Ok <==> stf.4)
                &&& final(self).gl().progs@[ph].uniform_blocks@.len() == blocks0.len()
                &&& forall|b: int|
                    0 <= b < blocks0.len() ==> {
                        let blk = #[trigger] final(self).gl().progs@[ph].uniform_blocks@[b];
                        &&& blk.name == blocks0[b].name
                        &&& blk.size == blocks0[b].size
                        &&& blk.uniforms@ == blocks0[b].uniforms@
                        &&& blk.buffer_data.bytes@ == stf.0[b]
                    }
                &&& final(self).gl().progs@[ph].sampler2ds@.len() == samplers0.len()
                &&& forall|k: int|
                    0 <= k < samplers0.len() ==> {
                        let sm = #[trigger] final(self).gl().progs@[ph].sampler2ds@[k];
                        &&& sm.uniform_info == samplers0[k].uniform_info
                        &&& sm.tex_unit == samplers0[k].tex_unit
                        &&& sm.tex_id == stf.1[k]
                    }
                &&& forall|p: int|
                    0 <= p < old(self).gl().progs@.len() && p != ph ==> final(self).gl().progs@[p]
                        == old(self).gl().progs@[p]
            }),
            result is Ok ==> draws_of(final(cmds)@.skip(old(cmds)@.len() as int)) == seq![
                GlCommand::DrawTriangles {
                    count: old(self).gl().ibos@[old(geom).gl().ibo as int].count,
                    index_type: old(self).gl().ibos@[old(geom).gl().ibo as int].itype,
                },
            ],
            result is Err ==> draws_of(final(cmds)@.skip(old(cmds)@.len() as int)) == Seq::<
                GlCommand,
            >::empty(),
    {
        match self {
            Renderer::OpenGL(gl) => match geom {
                Geometry::OpenGL(g) => gl.draw_geometry(g, cmds),
            },
        }
    }
}

/// The backend this build prefers.
pub fn determine_best_renderer() -> (name: String)
    ensures
        name@ == "OpenGL"@,
{
    "OpenGL".to_owned()
}

/// The renderer registered under `renderer_name`, or
/// [`RendererError::UnsupportedRenderer`] exactly when no backend bears
/// that name.
pub fn renderer_factory(renderer_name: &str) -> (result: Result<Renderer, RendererError>)
    ensures
        result is Ok <==> renderer_name@ == "OpenGL"@,
        result matches Ok(r) ==> r.wf() && r.gl().vbos@.len() == 0 && r.gl().ibos@.len() == 0
            && r.gl().vaos@.len() == 0 && r.gl().progs@.len() == 0 && r.gl().state.spec_prog()
            == 0 && r.gl().state.spec_vao() == 0 && r.gl().state.spec_vbo() == 0
            && r.gl().state.spec_ibo() == 0 && r.gl().state.spec_ubo() == 0
            && r.gl().state.spec_tex_units() == Map::<u32, u32>::empty() && r.gl().next_id == 1,
        result matches Err(e) ==> e matches RendererError::UnsupportedRenderer(n) && n@
            == renderer_name@,
{
    let key: String = "OpenGL".to_owned();
    if key == renderer_name.to_owned() {
        Ok(Renderer::OpenGL(OpenGLRenderer::new()))
    } else {
        Err(RendererError::UnsupportedRenderer(renderer_name.to_owned()))
    }
}


/// What one successful geometry creation leaves behind, as far as
/// handles go: the new geometry took the next slot of every pool.
pub open spec fn geometry_created(pre: Renderer, post: Renderer, g: Geometry) -> bool {
    &&& g.gl().vbo == pre.gl().vbos@.len()
    &&& g.gl().ibo == pre.gl().ibos@.len()
    &&& g.gl().vao == pre.gl().vaos@.len()
    &&& g.gl().program == pre.gl().progs@.len()
    &&& post.gl().vbos@.len() == pre.gl().vbos@.len() + 1
    &&& post.gl().ibos@.len() == pre.gl().ibos@.len() + 1
    &&& post.gl().vaos@.len() == pre.gl().vaos@.len() + 1
    &&& post.gl().progs@.len() == pre.gl().progs@.len() + 1
}

/// Creating geometry twice — from identical inputs or not — yields two
/// independent geometries with distinct handles: every handle of the
/// second is one past the first's, so no draw against one can reach the
/// other's objects.
pub proof fn lemma_geometry_handles_distinct(
    r0: Renderer,
    r1: Renderer,
    r2: Renderer,
    g1: Geometry,
    g2: Geometry,
)
    requires
        geometry_created(r0, r1, g1),
        geometry_created(r1, r2, g2),
    ensures
        g1.gl().vbo != g2.gl().vbo,
        g1.gl().ibo != g2.gl().ibo,
        g1.gl().vao != g2.gl().vao,
        g1.gl().program != g2.gl().program,
{
}

} // verus!
