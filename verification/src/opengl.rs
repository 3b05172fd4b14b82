//! The OpenGL backend: GPU object bookkeeping, shader reflection turned
//! into parameter schemas, the parameter-diff-to-upload pipeline, and
//! draw-call assembly — all as verified logic that emits [`GlCommand`]s.
//!
//! The renderer allocates its own object ids (a counter; 0 is the
//! driver's "nothing bound"). Compiling and linking happen on the GPU:
//! the caller links the shader pair, reads the program's reflection back,
//! and hands it in as a [`ProgramReflection`].

use crate::buffer::BufferData;
use crate::gl_commands::GlCommand;
use crate::gl_state::GLStateManager;
use crate::shader_params::{Param, ParamGroup, ParamValue, ShaderParams};
use crate::texture::{FilteringMethod, Texture, TextureFormat, TextureParamHandle};
use crate::vertex_layout::VertexLayoutDescription;
use crate::IndexType;
use vstd::prelude::*;

verus! {

/// Errors of geometry and texture creation and of draw-time parameter
/// application.
#[derive(Clone, PartialEq, Eq, Structural, Debug)]
pub enum RenderError {
    /// A uniform block member has a type the engine cannot represent.
    UnsupportedUniformType,
    /// A reflected member does not fit inside its block's byte size.
    UniformOutsideBlock,
    /// Two parameters share one name across the program's groups.
    DuplicateParameterName,
    /// A parameter value is wider than the room its member has.
    ValueOutsideBlock,
    /// The renderer has run out of object ids.
    TooManyObjects,
    /// The image's pixel layout is none the engine can upload.
    UnsupportedImageLayout,
}

/// The type of one reflected uniform, as the driver reports it.
#[derive(Clone, Copy, PartialEq, Eq, Structural, Debug)]
pub enum GlUniformKind {
    Float,
    Vec4,
    Mat3,
    Mat4,
    Sampler2D,
    Other,
}

/// The byte width of one value of a block-member kind (0 for kinds that
/// never stand in a block).
pub open spec fn kind_width(kind: GlUniformKind) -> int {
    match kind {
        GlUniformKind::Float => 4,
        GlUniformKind::Vec4 => 16,
        GlUniformKind::Mat3 => 36,
        GlUniformKind::Mat4 => 64,
        GlUniformKind::Sampler2D => 0,
        GlUniformKind::Other => 0,
    }
}

/// Whether a kind can stand as a uniform block member.
pub open spec fn kind_supported(kind: GlUniformKind) -> bool {
    kind == GlUniformKind::Float || kind == GlUniformKind::Vec4 || kind == GlUniformKind::Mat3
        || kind == GlUniformKind::Mat4
}

/// One active uniform, as reflection reports it: name, uniform index,
/// byte offset within its block (0 for loose uniforms), and type.
#[derive(Clone, Debug)]
pub struct GlUniformInfo {
    pub name: String,
    pub index: u32,
    pub offset: usize,
    pub kind: GlUniformKind,
}

/// One active uniform block: name, byte size, and its member uniforms.
#[derive(Clone, Debug)]
pub struct GlBlockInfo {
    pub name: String,
    pub size: usize,
    pub uniforms: Vec<GlUniformInfo>,
}

/// Everything the engine reads back from a linked program: its uniform
/// blocks and every active non-block uniform (for sampler discovery).
#[derive(Clone, Debug)]
pub struct ProgramReflection {
    pub blocks: Vec<GlBlockInfo>,
    pub uniforms: Vec<GlUniformInfo>,
}

/// A vertex buffer object record.
pub struct GLVbo {
    pub id: u32,
}

/// An index buffer object record: driver id, index width, index count.
pub struct GLIbo {
    pub id: u32,
    pub itype: IndexType,
    pub count: usize,
}

/// A vertex array object record.
pub struct GLVertexArrayObject {
    pub id: u32,
}

/// One uniform block of a linked program: the GPU buffer that backs it,
/// a shadow copy of its bytes, and its member uniforms.
pub struct GLUniformBlock {
    pub name: String,
    pub size: usize,
    pub buffer: u32,
    pub buffer_data: BufferData,
    pub uniforms: Vec<GlUniformInfo>,
}

/// One sampler uniform of a linked program: its reflection record, the
/// texture unit it was assigned, and the texture bound to it.
pub struct GLSampler2D {
    pub uniform_info: GlUniformInfo,
    pub tex_unit: u32,
    pub tex_id: u32,
}

/// A linked program: its id, its uniform blocks, and its samplers.
pub struct GLProg {
    pub id: u32,
    pub uniform_blocks: Vec<GLUniformBlock>,
    pub sampler2ds: Vec<GLSampler2D>,
}

/// A block record is well formed when its shadow buffer matches its size
/// and every member lies inside it with a representable kind.
pub open spec fn block_wf(block: GLUniformBlock) -> bool {
    &&& block.buffer_data.bytes@.len() == block.size
    &&& forall|u: int|
        0 <= u < block.uniforms@.len() ==> {
            &&& kind_supported((#[trigger] block.uniforms@[u]).kind)
            &&& block.uniforms@[u].offset + kind_width(block.uniforms@[u].kind) <= block.size
        }
}

/// A program record is well formed when all its blocks are.
pub open spec fn prog_wf(prog: GLProg) -> bool {
    forall|b: int| 0 <= b < prog.uniform_blocks@.len() ==> block_wf(#[trigger] prog.uniform_blocks@[b])
}

/// A texture owned by the OpenGL backend.
pub struct OpenGLTexture {
    id: u32,
    filter_method: FilteringMethod,
    filter_changed: bool,
    texture_format: TextureFormat,
    pixel_layout: PixelLayout,
}

impl OpenGLTexture {
    /// Whether the filtering mode changed since it was last applied.
    pub closed spec fn spec_filter_changed(&self) -> bool {
        self.filter_changed
    }

    /// The pixel layout of the image the texture was made from.
    pub closed spec fn spec_pixel_layout(&self) -> PixelLayout {
        self.pixel_layout
    }

    /// A fresh texture record: nearest filtering, nothing pending.
    fn with_layout(id: u32, texture_format: TextureFormat, pixel_layout: PixelLayout) -> (t:
        OpenGLTexture)
        ensures
            t.spec_handle() == id,
            t.spec_format() == texture_format,
            t.spec_filtering() == FilteringMethod::Nearest,
            !t.spec_filter_changed(),
            t.spec_pixel_layout() == pixel_layout,
    {
        OpenGLTexture {
            id,
            filter_method: FilteringMethod::Nearest,
            filter_changed: false,
            texture_format,
            pixel_layout,
        }
    }
}

impl Texture for OpenGLTexture {
    closed spec fn spec_handle(&self) -> u32 {
        self.id
    }

    closed spec fn spec_format(&self) -> TextureFormat {
        self.texture_format
    }

    closed spec fn spec_filtering(&self) -> FilteringMethod {
        self.filter_method
    }

    fn param_handle(&self) -> (handle: TextureParamHandle) {
        self.id
    }

    fn format(&self) -> (format: &TextureFormat) {
        &self.texture_format
    }

    fn set_filtering_method(&mut self, method: FilteringMethod) {
        self.filter_method = method;
        self.filter_changed = true;
    }
}

/// Geometry owned by the OpenGL backend: handles into the renderer's
/// pools, the vertex layout it was created with, and its parameters.
pub struct OpenGLGeometry {
    pub vbo: usize,
    pub ibo: usize,
    pub vao: usize,
    pub program: usize,
    pub layout_desc: VertexLayoutDescription,
    pub params: ShaderParams,
}

/// The OpenGL renderer: object pools, the bind-state cache, and the id
/// counter for the objects it creates.
pub struct OpenGLRenderer {
    pub vaos: Vec<GLVertexArrayObject>,
    pub vbos: Vec<GLVbo>,
    pub ibos: Vec<GLIbo>,
    pub progs: Vec<GLProg>,
    pub state: GLStateManager,
    pub next_id: u32,
}

impl OpenGLRenderer {
    /// The renderer's invariant: ids handed out so far are below the
    /// counter (so a fresh id is never cached as bound), the counter has
    /// not wrapped, and every program record is well formed.
    pub open spec fn wf(&self) -> bool {
        &&& 1 <= self.next_id
        &&& self.state.spec_prog() < self.next_id
        &&& self.state.spec_vao() < self.next_id
        &&& self.state.spec_vbo() < self.next_id
        &&& self.state.spec_ibo() < self.next_id
        &&& self.state.spec_ubo() < self.next_id
        &&& forall|i: int| 0 <= i < self.vbos@.len() ==> (#[trigger] self.vbos@[i]).id < self.next_id
        &&& forall|i: int| 0 <= i < self.ibos@.len() ==> (#[trigger] self.ibos@[i]).id < self.next_id
        &&& forall|i: int| 0 <= i < self.vaos@.len() ==> (#[trigger] self.vaos@[i]).id < self.next_id
        &&& forall|i: int|
            0 <= i < self.progs@.len() ==> (#[trigger] self.progs@[i]).id < self.next_id && prog_wf(
                self.progs@[i],
            )
        &&& forall|i: int, b: int|
            0 <= i < self.progs@.len() && 0 <= b < self.progs@[i].uniform_blocks@.len() ==> (
            #[trigger] self.progs@[i].uniform_blocks@[b]).buffer < self.next_id
    }

    /// A renderer with empty pools and nothing bound.
    pub fn new() -> (renderer: OpenGLRenderer)
        ensures
            renderer.wf(),
            renderer.vbos@.len() == 0,
            renderer.ibos@.len() == 0,
            renderer.vaos@.len() == 0,
            renderer.progs@.len() == 0,
            renderer.state.spec_prog() == 0 && renderer.state.spec_vao() == 0
                && renderer.state.spec_vbo() == 0 && renderer.state.spec_ibo() == 0
                && renderer.state.spec_ubo() == 0,
            renderer.state.spec_tex_units() == Map::<u32, u32>::empty(),
            renderer.next_id == 1,
    {
        OpenGLRenderer {
            vaos: Vec::new(),
            vbos: Vec::new(),
            ibos: Vec::new(),
            progs: Vec::new(),
            state: GLStateManager::new(),
            next_id: 1,
        }
    }

    /// Emits the command clearing the color buffer to the given color.
    pub fn clear(&mut self, r: crate::fixed::Fp, g: crate::fixed::Fp, b: crate::fixed::Fp, a: crate::fixed::Fp, cmds: &mut Vec<GlCommand>)
        ensures
            *final(self) == *old(self),
            final(cmds)@ == old(cmds)@.push(GlCommand::Clear { r, g, b, a }),
    {
        cmds.push(GlCommand::Clear { r, g, b, a });
    }

    /// Uploads `data` into a fresh vertex buffer object and returns its
    /// pool handle. Emits the creation, the bind, and the upload.
    fn create_vertex_buffer_object(&mut self, data: &BufferData, cmds: &mut Vec<GlCommand>) -> (h:
        usize)
        requires
            old(self).wf(),
            old(self).next_id < u32::MAX,
        ensures
            final(self).wf(),
            h == old(self).vbos@.len(),
            final(self).vbos@ == old(self).vbos@.push(GLVbo { id: old(self).next_id }),
            final(self).ibos@ == old(self).ibos@,
            final(self).vaos@ == old(self).vaos@,
            final(self).progs@ == old(self).progs@,
            final(self).next_id == old(self).next_id + 1,
            final(self).state.spec_vbo() == old(self).next_id,
            final(self).state.spec_prog() == old(self).state.spec_prog(),
            final(self).state.spec_vao() == old(self).state.spec_vao(),
            final(self).state.spec_ibo() == old(self).state.spec_ibo(),
            final(self).state.spec_ubo() == old(self).state.spec_ubo(),
            final(self).state.spec_tex_units() == old(self).state.spec_tex_units(),
            final(cmds)@.len() == old(cmds)@.len() + 3,
            final(cmds)@.subrange(0, old(cmds)@.len() as int) == old(cmds)@,
            final(cmds)@[old(cmds)@.len() as int] == GlCommand::CreateBuffer(old(self).next_id),
            final(cmds)@[old(cmds)@.len() as int + 1] == GlCommand::BindArrayBuffer(old(self).next_id),
            final(cmds)@[old(cmds)@.len() as int + 2] matches GlCommand::ArrayBufferData { bytes }
                && bytes@ == data.bytes@,
    {
        let buf_id = self.next_id;
        self.next_id = self.next_id + 1;
        cmds.push(GlCommand::CreateBuffer(buf_id));
        match self.state.set_vbo(buf_id) {
            Some(cmd) => cmds.push(cmd),
            None => {
                proof {
                    assert(false);
                }
            },
        }
        cmds.push(GlCommand::ArrayBufferData { bytes: data.bytes.clone() });
        self.vbos.push(GLVbo { id: buf_id });
        self.vbos.len() - 1
    }

    /// Uploads `data` into a fresh index buffer object and returns its
    /// pool handle; the record's count is the number of indices the
    /// bytes hold at the given width.
    fn create_index_buffer_object(
        &mut self,
        itype: IndexType,
        data: &BufferData,
        cmds: &mut Vec<GlCommand>,
    ) -> (h: usize)
        requires
            old(self).wf(),
            old(self).next_id < u32::MAX,
        ensures
            final(self).wf(),
            h == old(self).ibos@.len(),
            final(self).ibos@.len() == old(self).ibos@.len() + 1,
            final(self).ibos@ == old(self).ibos@.push(
                GLIbo {
                    id: old(self).next_id,
                    itype,
                    count: (data.bytes@.len() / (if itype is U32 {
                        4nat
                    } else {
                        2nat
                    })) as usize,
                },
            ),
            final(self).vbos@ == old(self).vbos@,
            final(self).vaos@ == old(self).vaos@,
            final(self).progs@ == old(self).progs@,
            final(self).next_id == old(self).next_id + 1,
            final(self).state.spec_ibo() == old(self).next_id,
            final(self).state.spec_prog() == old(self).state.spec_prog(),
            final(self).state.spec_vao() == old(self).state.spec_vao(),
            final(self).state.spec_vbo() == old(self).state.spec_vbo(),
            final(self).state.spec_ubo() == old(self).state.spec_ubo(),
            final(self).state.spec_tex_units() == old(self).state.spec_tex_units(),
            final(cmds)@.len() == old(cmds)@.len() + 3,
            final(cmds)@.subrange(0, old(cmds)@.len() as int) == old(cmds)@,
            final(cmds)@[old(cmds)@.len() as int] == GlCommand::CreateBuffer(old(self).next_id),
            final(cmds)@[old(cmds)@.len() as int + 1] == GlCommand::BindElementArrayBuffer(
                old(self).next_id,
            ),
            final(cmds)@[old(cmds)@.len() as int + 2] matches GlCommand::ElementArrayBufferData { bytes }
                && bytes@ == data.bytes@,
    {
        let buf_id = self.next_id;
        self.next_id = self.next_id + 1;
        cmds.push(GlCommand::CreateBuffer(buf_id));
        match self.state.set_ibo(buf_id) {
            Some(cmd) => cmds.push(cmd),
            None => {
                proof {
                    assert(false);
                }
            },
        }
        cmds.push(GlCommand::ElementArrayBufferData { bytes: data.bytes.clone() });
        let count = match itype {
            IndexType::U32 => data.bytes.len() / 4,
            IndexType::U16 => data.bytes.len() / 2,
        };
        self.ibos.push(GLIbo { id: buf_id, itype, count });
        self.ibos.len() - 1
    }
}


/// The three commands binding vertex attribute `i` of a layout: bind the
/// name to index `i`, enable the index, and describe the packing.
pub open spec fn attrib_cmds(
    elements: Seq<crate::vertex_layout::VertexElement>,
    prog: u32,
    stride: usize,
) -> Seq<GlCommand>
    decreases elements.len(),
{
    if elements.len() == 0 {
        Seq::empty()
    } else {
        let i = elements.len() - 1;
        attrib_cmds(elements.drop_last(), prog, stride) + seq![
            GlCommand::BindAttribLocation {
                program: prog,
                index: i as u32,
                name: elements.last().name,
            },
            GlCommand::EnableVertexAttribArray { index: i as u32 },
            GlCommand::VertexAttribPointer {
                index: i as u32,
                components: crate::vertex_layout::element_components(
                    elements.last().vtype,
                ) as i32,
                stride,
                offset: elements.last().offset,
            },
        ]
    }
}

/// Binding `n` attributes takes `3 * n` commands.
proof fn lemma_attrib_cmds_len(
    elements: Seq<crate::vertex_layout::VertexElement>,
    prog: u32,
    stride: usize,
)
    ensures
        attrib_cmds(elements, prog, stride).len() == 3 * elements.len(),
    decreases elements.len(),
{
    if elements.len() > 0 {
        lemma_attrib_cmds_len(elements.drop_last(), prog, stride);
    }
}

/// Appending one element appends its three commands.
proof fn lemma_attrib_cmds_push(
    elements: Seq<crate::vertex_layout::VertexElement>,
    e: crate::vertex_layout::VertexElement,
    prog: u32,
    stride: usize,
)
    ensures
        attrib_cmds(elements.push(e), prog, stride) == attrib_cmds(elements, prog, stride) + seq![
            GlCommand::BindAttribLocation {
                program: prog,
                index: elements.len() as u32,
                name: e.name,
            },
            GlCommand::EnableVertexAttribArray { index: elements.len() as u32 },
            GlCommand::VertexAttribPointer {
                index: elements.len() as u32,
                components: crate::vertex_layout::element_components(e.vtype) as i32,
                stride,
                offset: e.offset,
            },
        ],
{
    assert(elements.push(e).drop_last() == elements);
    assert(elements.push(e).last() == e);
}

/// The sampler uniforms of a program, in discovery order.
pub open spec fn samplers_of(uniforms: Seq<GlUniformInfo>) -> Seq<GlUniformInfo>
    decreases uniforms.len(),
{
    if uniforms.len() == 0 {
        Seq::empty()
    } else {
        samplers_of(uniforms.drop_last()) + (if uniforms.last().kind
            == GlUniformKind::Sampler2D {
            seq![uniforms.last()]
        } else {
            Seq::empty()
        })
    }
}

/// Appending one uniform appends it to the samplers exactly when it is a
/// sampler.
proof fn lemma_samplers_of_push(uniforms: Seq<GlUniformInfo>, u: GlUniformInfo)
    ensures
        samplers_of(uniforms.push(u)) == samplers_of(uniforms) + (if u.kind
            == GlUniformKind::Sampler2D {
            seq![u]
        } else {
            Seq::<GlUniformInfo>::empty()
        }),
{
    assert(uniforms.push(u).drop_last() == uniforms);
    assert(uniforms.push(u).last() == u);
}

/// The five commands setting up uniform block `i` of a program: create
/// and bind its buffer (ids run from `first_id`), allocate it zeroed,
/// and attach it to binding index `i`.
pub open spec fn block_setup_cmds(blocks: Seq<GlBlockInfo>, prog: u32, first_id: u32) -> Seq<
    GlCommand,
>
    decreases blocks.len(),
{
    if blocks.len() == 0 {
        Seq::empty()
    } else {
        let i = blocks.len() - 1;
        let ubo = (first_id + i) as u32;
        block_setup_cmds(blocks.drop_last(), prog, first_id) + seq![
            GlCommand::CreateBuffer(ubo),
            GlCommand::BindUniformBuffer(ubo),
            GlCommand::UniformBufferData { size: blocks.last().size },
            GlCommand::UniformBlockBinding { program: prog, block_index: i as u32, binding: i as u32 },
            GlCommand::BindBufferBase { binding: i as u32, buffer: ubo },
        ]
    }
}

/// Setting up `n` blocks takes `5 * n` commands.
proof fn lemma_block_setup_cmds_len(blocks: Seq<GlBlockInfo>, prog: u32, first_id: u32)
    ensures
        block_setup_cmds(blocks, prog, first_id).len() == 5 * blocks.len(),
    decreases blocks.len(),
{
    if blocks.len() > 0 {
        lemma_block_setup_cmds_len(blocks.drop_last(), prog, first_id);
    }
}

/// Appending one block appends its five commands.
proof fn lemma_block_setup_cmds_push(blocks: Seq<GlBlockInfo>, b: GlBlockInfo, prog: u32, first_id: u32)
    ensures
        block_setup_cmds(blocks.push(b), prog, first_id) == block_setup_cmds(
            blocks,
            prog,
            first_id,
        ) + seq![
            GlCommand::CreateBuffer((first_id + blocks.len()) as u32),
            GlCommand::BindUniformBuffer((first_id + blocks.len()) as u32),
            GlCommand::UniformBufferData { size: b.size },
            GlCommand::UniformBlockBinding {
                program: prog,
                block_index: blocks.len() as u32,
                binding: blocks.len() as u32,
            },
            GlCommand::BindBufferBase {
                binding: blocks.len() as u32,
                buffer: (first_id + blocks.len()) as u32,
            },
        ],
{
    assert(blocks.push(b).drop_last() == blocks);
    assert(blocks.push(b).last() == b);
}

/// Every block member has a representable kind and lies inside its
/// block's byte size.
pub open spec fn reflection_blocks_valid(reflection: ProgramReflection) -> bool {
    forall|b: int, u: int|
        0 <= b < reflection.blocks@.len() && 0 <= u < reflection.blocks@[b].uniforms@.len() ==> {
            &&& kind_supported((#[trigger] reflection.blocks@[b].uniforms@[u]).kind)
            &&& reflection.blocks@[b].uniforms@[u].offset + kind_width(
                reflection.blocks@[b].uniforms@[u].kind,
            ) <= reflection.blocks@[b].size
        }
}

/// No two of the parameter names a reflection produces — block members
/// or samplers — coincide.
pub open spec fn reflection_names_distinct(reflection: ProgramReflection) -> bool {
    let samplers = samplers_of(reflection.uniforms@);
    &&& forall|bi: int, ui: int, bj: int, uj: int|
        0 <= bi < reflection.blocks@.len() && 0 <= ui < reflection.blocks@[bi].uniforms@.len() && 0
            <= bj < reflection.blocks@.len() && 0 <= uj < reflection.blocks@[bj].uniforms@.len()
            && (bi != bj || ui != uj)
            ==> #[trigger] reflection.blocks@[bi].uniforms@[ui].name@
            != #[trigger] reflection.blocks@[bj].uniforms@[uj].name@
    &&& forall|bi: int, ui: int, sx: int|
        0 <= bi < reflection.blocks@.len() && 0 <= ui < reflection.blocks@[bi].uniforms@.len() && 0
            <= sx < samplers_of(reflection.uniforms@).len()
            ==> #[trigger] reflection.blocks@[bi].uniforms@[ui].name@
            != #[trigger] samplers_of(reflection.uniforms@)[sx].name@
    &&& forall|s1: int, s2: int|
        0 <= s1 < samplers_of(reflection.uniforms@).len() && 0 <= s2 < samplers_of(
            reflection.uniforms@,
        ).len() && s1 != s2 ==> #[trigger] samplers_of(reflection.uniforms@)[s1].name@
            != #[trigger] samplers_of(reflection.uniforms@)[s2].name@
}

/// A field-for-field copy of uniform records.
fn clone_uniform_infos(v: &Vec<GlUniformInfo>) -> (r: Vec<GlUniformInfo>)
    ensures
        r@ == v@,
{
    let mut r: Vec<GlUniformInfo> = Vec::new();
    let mut i: usize = 0;
    while i < v.len()
        invariant
            i <= v@.len(),
            r@ == v@.subrange(0, i as int),
        decreases v@.len() - i,
    {
        let u = &v[i];
        r.push(GlUniformInfo { name: u.name.clone(), index: u.index, offset: u.offset, kind: u.kind });
        proof {
            assert(r@ =~= v@.subrange(0, i + 1));
        }
        i = i + 1;
    }
    proof {
        assert(v@.subrange(0, v@.len() as int) =~= v@);
    }
    r
}

impl OpenGLRenderer {
    /// Checks that every reflected block member can be represented and
    /// lies inside its block.
    pub fn validate_reflection(reflection: &ProgramReflection) -> (result: Result<
        (),
        RenderError,
    >)
        ensures
            result is Ok <==> reflection_blocks_valid(*reflection),
            result matches Err(e) ==> e == RenderError::UnsupportedUniformType || e
                == RenderError::UniformOutsideBlock,
    {
        let mut b: usize = 0;
        while b < reflection.blocks.len()
            invariant
                b <= reflection.blocks@.len(),
                forall|b1: int, u1: int|
                    0 <= b1 < b && 0 <= u1 < reflection.blocks@[b1].uniforms@.len() ==> {
                        &&& kind_supported(
                            (#[trigger] reflection.blocks@[b1].uniforms@[u1]).kind,
                        )
                        &&& reflection.blocks@[b1].uniforms@[u1].offset + kind_width(
                            reflection.blocks@[b1].uniforms@[u1].kind,
                        ) <= reflection.blocks@[b1].size
                    },
            decreases reflection.blocks@.len() - b,
        {
            let block = &reflection.blocks[b];
            let mut u: usize = 0;
            while u < block.uniforms.len()
                invariant
                    b < reflection.blocks@.len(),
                    *block == reflection.blocks@[b as int],
                    u <= block.uniforms@.len(),
                    forall|u1: int|
                        0 <= u1 < u ==> {
                            &&& kind_supported((#[trigger] block.uniforms@[u1]).kind)
                            &&& block.uniforms@[u1].offset + kind_width(block.uniforms@[u1].kind)
                                <= block.size
                        },
                decreases block.uniforms@.len() - u,
            {
                let info = &block.uniforms[u];
                let width: usize = match info.kind {
                    GlUniformKind::Float => 4,
                    GlUniformKind::Vec4 => 16,
                    GlUniformKind::Mat3 => 36,
                    GlUniformKind::Mat4 => 64,
                    GlUniformKind::Sampler2D => {
                        return Err(RenderError::UnsupportedUniformType);
                    },
                    GlUniformKind::Other => {
                        return Err(RenderError::UnsupportedUniformType);
                    },
                };
                if info.offset > block.size || width > block.size - info.offset {
                    return Err(RenderError::UniformOutsideBlock);
                }
                u = u + 1;
            }
            b = b + 1;
        }
        Ok(())
    }

    /// Picks the sampler uniforms out of a program's active uniforms and
    /// assigns each the next texture unit, starting at 0 in discovery
    /// order.
    pub fn get_program_samplers(&self, uniforms: &Vec<GlUniformInfo>) -> (samplers: Vec<
        GLSampler2D,
    >)
        requires
            uniforms@.len() <= u32::MAX,
        ensures
            samplers@.len() == samplers_of(uniforms@).len(),
            forall|k: int|
                0 <= k < samplers@.len() ==> {
                    &&& (#[trigger] samplers@[k]).uniform_info == samplers_of(uniforms@)[k]
                    &&& samplers@[k].tex_unit == k
                    &&& samplers@[k].tex_id == 0
                },
    {
        let mut samplers: Vec<GLSampler2D> = Vec::new();
        let mut i: usize = 0;
        while i < uniforms.len()
            invariant
                i <= uniforms@.len(),
                uniforms@.len() <= u32::MAX,
                samplers@.len() == samplers_of(uniforms@.subrange(0, i as int)).len(),
                samplers@.len() <= i,
                forall|k: int|
                    0 <= k < samplers@.len() ==> {
                        &&& (#[trigger] samplers@[k]).uniform_info == samplers_of(
                            uniforms@.subrange(0, i as int),
                        )[k]
                        &&& samplers@[k].tex_unit == k
                        &&& samplers@[k].tex_id == 0
                    },
            decreases uniforms@.len() - i,
        {
            let u = &uniforms[i];
            proof {
                lemma_samplers_of_push(uniforms@.subrange(0, i as int), uniforms@[i as int]);
                assert(uniforms@.subrange(0, i + 1) == uniforms@.subrange(0, i as int).push(
                    uniforms@[i as int],
                ));
            }
            let is_sampler = match u.kind {
                GlUniformKind::Sampler2D => true,
                _ => false,
            };
            if is_sampler {
                let unit = samplers.len() as u32;
                samplers.push(
                    GLSampler2D {
                        uniform_info: GlUniformInfo {
                            name: u.name.clone(),
                            index: u.index,
                            offset: u.offset,
                            kind: u.kind,
                        },
                        tex_unit: unit,
                        tex_id: 0,
                    },
                );
            }
            i = i + 1;
        }
        proof {
            assert(uniforms@.subrange(0, uniforms@.len() as int) =~= uniforms@);
        }
        samplers
    }

    /// Creates a vertex array object binding `desc`'s attributes, by
    /// name and in order, against the program, with the layout's offsets
    /// and stride. The program must be current while attribute names are
    /// bound, so the vertex buffer and program binds come first.
    fn create_vertex_array_object(
        &mut self,
        desc: &VertexLayoutDescription,
        vboh: usize,
        progh: usize,
        cmds: &mut Vec<GlCommand>,
    ) -> (h: usize)
        requires
            old(self).wf(),
            old(self).next_id < u32::MAX,
            vboh < old(self).vbos@.len(),
            progh < old(self).progs@.len(),
            desc.wf(),
            desc.spec_stride() <= usize::MAX,
            desc.elements@.len() <= u32::MAX,
        ensures
            final(self).wf(),
            h == old(self).vaos@.len(),
            final(self).vaos@ == old(self).vaos@.push(GLVertexArrayObject { id: old(self).next_id }),
            final(self).vbos@ == old(self).vbos@,
            final(self).ibos@ == old(self).ibos@,
            final(self).progs@ == old(self).progs@,
            final(self).next_id == old(self).next_id + 1,
            final(self).state.spec_vao() == old(self).next_id,
            final(self).state.spec_vbo() == old(self).vbos@[vboh as int].id,
            final(self).state.spec_prog() == old(self).progs@[progh as int].id,
            final(self).state.spec_ibo() == old(self).state.spec_ibo(),
            final(self).state.spec_ubo() == old(self).state.spec_ubo(),
            final(self).state.spec_tex_units() == old(self).state.spec_tex_units(),
            final(cmds)@ == old(cmds)@ + seq![
                GlCommand::CreateVertexArray(old(self).next_id),
                GlCommand::BindVertexArray(old(self).next_id),
            ] + crate::gl_commands::bind_piece(
                old(self).state.spec_vbo(),
                old(self).vbos@[vboh as int].id,
                GlCommand::BindArrayBuffer(old(self).vbos@[vboh as int].id),
            ) + crate::gl_commands::bind_piece(
                old(self).state.spec_prog(),
                old(self).progs@[progh as int].id,
                GlCommand::UseProgram(old(self).progs@[progh as int].id),
            ) + attrib_cmds(
                desc.elements@,
                old(self).progs@[progh as int].id,
                desc.spec_stride() as usize,
            ),
    {
        let vao_id = self.next_id;
        self.next_id = self.next_id + 1;
        cmds.push(GlCommand::CreateVertexArray(vao_id));
        match self.state.set_vao(vao_id) {
            Some(cmd) => cmds.push(cmd),
            None => {
                proof {
                    assert(false);
                }
            },
        }
        let vboid = self.vbos[vboh].id;
        match self.state.set_vbo(vboid) {
            Some(cmd) => cmds.push(cmd),
            None => (),
        }
        let progid = self.progs[progh].id;
        match self.state.set_program(progid) {
            Some(cmd) => cmds.push(cmd),
            None => (),
        }
        let stride = desc.stride();
        let ghost base = cmds@;
        let mut i: usize = 0;
        while i < desc.elements.len()
            invariant
                i <= desc.elements@.len(),
                desc.elements@.len() <= u32::MAX,
                cmds@ == base + attrib_cmds(
                    desc.elements@.subrange(0, i as int),
                    progid,
                    stride as usize,
                ),
            decreases desc.elements@.len() - i,
        {
            let elem = &desc.elements[i];
            proof {
                lemma_attrib_cmds_push(
                    desc.elements@.subrange(0, i as int),
                    desc.elements@[i as int],
                    progid,
                    stride,
                );
                assert(desc.elements@.subrange(0, i + 1) == desc.elements@.subrange(
                    0,
                    i as int,
                ).push(desc.elements@[i as int]));
            }
            let index = i as u32;
            let num_components = elem.vtype.get_num_components();
            cmds.push(
                GlCommand::BindAttribLocation { program: progid, index, name: elem.name.clone() },
            );
            cmds.push(GlCommand::EnableVertexAttribArray { index });
            cmds.push(
                GlCommand::VertexAttribPointer {
                    index,
                    components: num_components,
                    stride,
                    offset: elem.offset,
                },
            );
            i = i + 1;
            assert(cmds@ =~= base + attrib_cmds(
                desc.elements@.subrange(0, i as int),
                progid,
                stride as usize,
            ));
        }
        proof {
            assert(desc.elements@.subrange(0, desc.elements@.len() as int) =~= desc.elements@);
        }
        self.vaos.push(GLVertexArrayObject { id: vao_id });
        self.vaos.len() - 1
    }
}


impl OpenGLRenderer {
    /// Registers a linked program: emits the link command, then, for each
    /// reflected uniform block in order, creates a zeroed GPU buffer and
    /// attaches it to the binding index equal to the block's position.
    /// Sampler uniforms get texture units 0, 1, ... in discovery order.
    fn create_program(
        &mut self,
        vert_src: &str,
        frag_src: &str,
        reflection: &ProgramReflection,
        cmds: &mut Vec<GlCommand>,
    ) -> (h: usize)
        requires
            old(self).wf(),
            reflection_blocks_valid(*reflection),
            old(self).next_id + 1 + reflection.blocks@.len() <= u32::MAX,
            reflection.uniforms@.len() <= u32::MAX,
        ensures
            final(self).wf(),
            h == old(self).progs@.len(),
            final(self).progs@.len() == old(self).progs@.len() + 1,
            final(self).progs@.subrange(0, old(self).progs@.len() as int) == old(self).progs@,
            final(self).progs@.last().id == old(self).next_id,
            final(self).progs@.last().uniform_blocks@.len() == reflection.blocks@.len(),
            forall|i: int|
                0 <= i < reflection.blocks@.len() ==> {
                    let blk = #[trigger] final(self).progs@.last().uniform_blocks@[i];
                    &&& blk.name == reflection.blocks@[i].name
                    &&& blk.size == reflection.blocks@[i].size
                    &&& blk.buffer == old(self).next_id + 1 + i
                    &&& blk.uniforms@ == reflection.blocks@[i].uniforms@
                    &&& blk.buffer_data.bytes@.len() == reflection.blocks@[i].size
                    &&& forall|k: int|
                        0 <= k < blk.buffer_data.bytes@.len() ==> blk.buffer_data.bytes@[k] == 0u8
                },
            final(self).progs@.last().sampler2ds@.len() == samplers_of(reflection.uniforms@).len(),
            forall|k: int|
                0 <= k < final(self).progs@.last().sampler2ds@.len() ==> {
                    &&& (#[trigger] final(self).progs@.last().sampler2ds@[k]).uniform_info
                        == samplers_of(reflection.uniforms@)[k]
                    &&& final(self).progs@.last().sampler2ds@[k].tex_unit == k
                    &&& final(self).progs@.last().sampler2ds@[k].tex_id == 0
                },
            final(self).vbos@ == old(self).vbos@,
            final(self).ibos@ == old(self).ibos@,
            final(self).vaos@ == old(self).vaos@,
            final(self).next_id == old(self).next_id + 1 + reflection.blocks@.len(),
            final(self).state.spec_prog() == old(self).state.spec_prog(),
            final(self).state.spec_vao() == old(self).state.spec_vao(),
            final(self).state.spec_vbo() == old(self).state.spec_vbo(),
            final(self).state.spec_ibo() == old(self).state.spec_ibo(),
            final(self).state.spec_tex_units() == old(self).state.spec_tex_units(),
            final(self).state.spec_ubo() == (if reflection.blocks@.len() == 0 {
                old(self).state.spec_ubo() as int
            } else {
                old(self).next_id + reflection.blocks@.len()
            }),
            final(cmds)@.len() == old(cmds)@.len() + 1 + 5 * reflection.blocks@.len(),
            final(cmds)@.subrange(0, old(cmds)@.len() as int) == old(cmds)@,
            final(cmds)@[old(cmds)@.len() as int] matches GlCommand::LinkProgram {
                program,
                vertex_source,
                fragment_source,
            } && program == old(self).next_id && vertex_source@ == vert_src@ && fragment_source@
                == frag_src@,
            final(cmds)@.subrange(old(cmds)@.len() as int + 1, final(cmds)@.len() as int)
                == block_setup_cmds(
                reflection.blocks@,
                old(self).next_id,
                (old(self).next_id + 1) as u32,
            ),
    {
        let prog_id = self.next_id;
        self.next_id = self.next_id + 1;
        cmds.push(
            GlCommand::LinkProgram {
                program: prog_id,
                vertex_source: vert_src.to_owned(),
                fragment_source: frag_src.to_owned(),
            },
        );
        let ghost base = cmds@;
        let mut uniform_blocks: Vec<GLUniformBlock> = Vec::new();
        let mut i: usize = 0;
        while i < reflection.blocks.len()
            invariant
                i <= reflection.blocks@.len(),
                prog_id == old(self).next_id,
                old(self).next_id + 1 + reflection.blocks@.len() <= u32::MAX,
                reflection_blocks_valid(*reflection),
                self.next_id == prog_id + 1 + i,
                old(self).wf(),
                self.vbos@ == old(self).vbos@,
                self.ibos@ == old(self).ibos@,
                self.vaos@ == old(self).vaos@,
                self.progs@ == old(self).progs@,
                self.state.spec_prog() == old(self).state.spec_prog(),
                self.state.spec_vao() == old(self).state.spec_vao(),
                self.state.spec_vbo() == old(self).state.spec_vbo(),
                self.state.spec_ibo() == old(self).state.spec_ibo(),
                self.state.spec_tex_units() == old(self).state.spec_tex_units(),
                self.state.spec_ubo() == (if i == 0 {
                    old(self).state.spec_ubo() as int
                } else {
                    prog_id + i
                }),
                uniform_blocks@.len() == i,
                forall|k: int|
                    0 <= k < i ==> {
                        let blk = #[trigger] uniform_blocks@[k];
                        &&& blk.name == reflection.blocks@[k].name
                        &&& blk.size == reflection.blocks@[k].size
                        &&& blk.buffer == prog_id + 1 + k
                        &&& blk.uniforms@ == reflection.blocks@[k].uniforms@
                        &&& blk.buffer_data.bytes@.len() == reflection.blocks@[k].size
                        &&& forall|b: int|
                            0 <= b < blk.buffer_data.bytes@.len() ==> blk.buffer_data.bytes@[b]
                                == 0u8
                    },
                cmds@ == base + block_setup_cmds(
                    reflection.blocks@.subrange(0, i as int),
                    prog_id,
                    (prog_id + 1) as u32,
                ),
                base.len() == old(cmds)@.len() + 1,
                base.subrange(0, old(cmds)@.len() as int) == old(cmds)@,
                base.last() matches GlCommand::LinkProgram {
                    program,
                    vertex_source,
                    fragment_source,
                } && program == old(self).next_id && vertex_source@ == vert_src@
                    && fragment_source@ == frag_src@,
            decreases reflection.blocks@.len() - i,
        {
            let binfo = &reflection.blocks[i];
            let ubo = self.next_id;
            self.next_id = self.next_id + 1;
            let buffer_data = BufferData::new_zero_initialized(binfo.size);
            proof {
                lemma_block_setup_cmds_push(
                    reflection.blocks@.subrange(0, i as int),
                    reflection.blocks@[i as int],
                    prog_id,
                    (prog_id + 1) as u32,
                );
                assert(reflection.blocks@.subrange(0, i + 1) == reflection.blocks@.subrange(
                    0,
                    i as int,
                ).push(reflection.blocks@[i as int]));
            }
            cmds.push(GlCommand::CreateBuffer(ubo));
            match self.state.set_ubo(ubo) {
                Some(cmd) => cmds.push(cmd),
                None => {
                    proof {
                        assert(false);
                    }
                },
            }
            cmds.push(GlCommand::UniformBufferData { size: binfo.size });
            let index = i as u32;
            cmds.push(
                GlCommand::UniformBlockBinding { program: prog_id, block_index: index, binding: index },
            );
            cmds.push(GlCommand::BindBufferBase { binding: index, buffer: ubo });
            uniform_blocks.push(
                GLUniformBlock {
                    name: binfo.name.clone(),
                    size: binfo.size,
                    buffer: ubo,
                    buffer_data,
                    uniforms: clone_uniform_infos(&binfo.uniforms),
                },
            );
            i = i + 1;
            assert(cmds@ =~= base + block_setup_cmds(
                reflection.blocks@.subrange(0, i as int),
                prog_id,
                (prog_id + 1) as u32,
            ));
        }
        proof {
            assert(reflection.blocks@.subrange(0, reflection.blocks@.len() as int)
                =~= reflection.blocks@);
        }
        let samplers = self.get_program_samplers(&reflection.uniforms);
        self.progs.push(GLProg { id: prog_id, uniform_blocks, sampler2ds: samplers });
        proof {
            assert(final(self).progs@.subrange(0, old(self).progs@.len() as int) =~= old(
                self,
            ).progs@);
            assert forall|p: int| 0 <= p < self.progs@.len() implies (
            #[trigger] self.progs@[p]).id < self.next_id && prog_wf(self.progs@[p]) by {
                if p < self.progs@.len() - 1 {
                    assert(self.progs@[p] == old(self).progs@[p]);
                } else {
                    assert forall|b: int|
                        0 <= b < self.progs@[p].uniform_blocks@.len() implies block_wf(
                        #[trigger] self.progs@[p].uniform_blocks@[b],
                    ) by {
                        assert(self.progs@[p].uniform_blocks@[b].uniforms@
                            == reflection.blocks@[b].uniforms@);
                        assert forall|u: int|
                            0 <= u < self.progs@[p].uniform_blocks@[b].uniforms@.len() implies {
                            &&& kind_supported(
                                (#[trigger] self.progs@[p].uniform_blocks@[b].uniforms@[u]).kind,
                            )
                            &&& self.progs@[p].uniform_blocks@[b].uniforms@[u].offset + kind_width(
                                self.progs@[p].uniform_blocks@[b].uniforms@[u].kind,
                            ) <= self.progs@[p].uniform_blocks@[b].size
                        } by {
                            assert(self.progs@[p].uniform_blocks@[b].uniforms@[u]
                                == reflection.blocks@[b].uniforms@[u]);
                            assert(kind_supported(reflection.blocks@[b].uniforms@[u].kind)
                                && reflection.blocks@[b].uniforms@[u].offset + kind_width(
                                reflection.blocks@[b].uniforms@[u].kind,
                            ) <= reflection.blocks@[b].size);
                        }
                    }
                }
            }
            assert forall|p: int, b: int|
                0 <= p < self.progs@.len() && 0 <= b
                    < self.progs@[p].uniform_blocks@.len() implies (
            #[trigger] self.progs@[p].uniform_blocks@[b]).buffer < self.next_id by {
                if p < self.progs@.len() - 1 {
                    assert(self.progs@[p] == old(self).progs@[p]);
                }
            }
            lemma_block_setup_cmds_len(
                reflection.blocks@,
                old(self).next_id,
                (old(self).next_id + 1) as u32,
            );
            let n = old(cmds)@.len() as int;
            assert(cmds@.subrange(0, n) =~= old(cmds)@);
            assert(cmds@.subrange(n + 1, cmds@.len() as int) =~= block_setup_cmds(
                reflection.blocks@,
                old(self).next_id,
                (old(self).next_id + 1) as u32,
            ));
        }
        self.progs.len() - 1
    }
}


/// The zeroed default a parameter of the given kind starts with: 0 for a
/// scalar, the zero vector, the identity matrix.
pub open spec fn is_default_value(kind: GlUniformKind, v: ParamValue) -> bool {
    match kind {
        GlUniformKind::Float => v == ParamValue::F32(0i32),
        GlUniformKind::Vec4 => v matches ParamValue::Vec4(a) && a@ == seq![0i32, 0i32, 0i32, 0i32],
        GlUniformKind::Mat3 => v matches ParamValue::Mat3(a) && a@ == seq![
            crate::fixed::FP_ONE,
            0i32,
            0i32,
            0i32,
            crate::fixed::FP_ONE,
            0i32,
            0i32,
            0i32,
            crate::fixed::FP_ONE,
        ],
        GlUniformKind::Mat4 => v matches ParamValue::Mat4(a) && a@ == seq![
            crate::fixed::FP_ONE,
            0i32,
            0i32,
            0i32,
            0i32,
            crate::fixed::FP_ONE,
            0i32,
            0i32,
            0i32,
            0i32,
            crate::fixed::FP_ONE,
            0i32,
            0i32,
            0i32,
            0i32,
            crate::fixed::FP_ONE,
        ],
        GlUniformKind::Sampler2D => false,
        GlUniformKind::Other => false,
    }
}

/// Every member of every block has a representable kind.
pub open spec fn all_kinds_supported(blocks: Seq<GLUniformBlock>) -> bool {
    forall|b: int, u: int|
        0 <= b < blocks.len() && 0 <= u < blocks[b].uniforms@.len() ==> kind_supported(
            (#[trigger] blocks[b].uniforms@[u]).kind,
        )
}

/// `groups` is exactly the schema the reflected blocks and samplers
/// produce: one group per block, in order, with the members' names and
/// zeroed defaults, then one synthetic group of texture parameters.
pub open spec fn schema_matches(
    blocks: Seq<GLUniformBlock>,
    samplers: Seq<GLSampler2D>,
    groups: Seq<ParamGroup>,
) -> bool {
    &&& groups.len() == blocks.len() + 1
    &&& forall|i: int|
        0 <= i < blocks.len() ==> {
            &&& (#[trigger] groups[i]).name@ == blocks[i].name@
            &&& groups[i].params@.len() == blocks[i].uniforms@.len()
            &&& forall|j: int|
                0 <= j < blocks[i].uniforms@.len() ==> {
                    &&& (#[trigger] groups[i].params@[j]).name@ == blocks[i].uniforms@[j].name@
                    &&& is_default_value(blocks[i].uniforms@[j].kind, groups[i].params@[j].value)
                }
        }
    &&& groups[blocks.len() as int].name@ == "_textures"@
    &&& groups[blocks.len() as int].params@.len() == samplers.len()
    &&& forall|j: int|
        0 <= j < samplers.len() ==> {
            &&& (#[trigger] groups[blocks.len() as int].params@[j]).name@
                == samplers[j].uniform_info.name@
            &&& groups[blocks.len() as int].params@[j].value == ParamValue::Texture2D(0u32)
        }
}

/// No two of the schema's parameters — block members or samplers — share
/// a name.
pub open spec fn schema_distinct(blocks: Seq<GLUniformBlock>, samplers: Seq<GLSampler2D>) -> bool {
    &&& forall|bi: int, ui: int, bj: int, uj: int|
        0 <= bi < blocks.len() && 0 <= ui < blocks[bi].uniforms@.len() && 0 <= bj < blocks.len()
            && 0 <= uj < blocks[bj].uniforms@.len() && (bi != bj || ui != uj)
            ==> #[trigger] blocks[bi].uniforms@[ui].name@ != #[trigger] blocks[bj].uniforms@[uj].name@
    &&& forall|bi: int, ui: int, s: int|
        0 <= bi < blocks.len() && 0 <= ui < blocks[bi].uniforms@.len() && 0 <= s < samplers.len()
            ==> #[trigger] blocks[bi].uniforms@[ui].name@
            != #[trigger] samplers[s].uniform_info.name@
    &&& forall|s1: int, s2: int|
        0 <= s1 < samplers.len() && 0 <= s2 < samplers.len() && s1 != s2
            ==> #[trigger] samplers[s1].uniform_info.name@
            != #[trigger] samplers[s2].uniform_info.name@
}

/// A schema's parameter names are unique exactly when the reflected
/// names it was built from are distinct.
proof fn lemma_schema_unique(
    blocks: Seq<GLUniformBlock>,
    samplers: Seq<GLSampler2D>,
    groups: Seq<ParamGroup>,
)
    requires
        schema_matches(blocks, samplers, groups),
    ensures
        crate::shader_params::names_unique(groups) <==> schema_distinct(blocks, samplers),
{
    let b = blocks.len() as int;
    if schema_distinct(blocks, samplers) {
        assert forall|i: int, j: int, k: int, l: int|
            0 <= i < groups.len() && 0 <= j < groups[i].params@.len() && 0 <= k < groups.len() && 0
                <= l < groups[k].params@.len() && (i != k || j != l) implies (
        #[trigger] groups[i].params@[j].name@) != (#[trigger] groups[k].params@[l].name@) by {
            if i < b && k < b {
                assert(groups[i].params@[j].name@ == blocks[i].uniforms@[j].name@);
                assert(groups[k].params@[l].name@ == blocks[k].uniforms@[l].name@);
                assert(blocks[i].uniforms@[j].name@ != blocks[k].uniforms@[l].name@);
            } else if i < b && k == b {
                assert(groups[i].params@[j].name@ == blocks[i].uniforms@[j].name@);
                assert(groups[k].params@[l].name@ == samplers[l].uniform_info.name@);
                assert(blocks[i].uniforms@[j].name@ != samplers[l].uniform_info.name@);
            } else if i == b && k < b {
                assert(groups[i].params@[j].name@ == samplers[j].uniform_info.name@);
                assert(groups[k].params@[l].name@ == blocks[k].uniforms@[l].name@);
                assert(blocks[k].uniforms@[l].name@ != samplers[j].uniform_info.name@);
            } else {
                assert(groups[i].params@[j].name@ == samplers[j].uniform_info.name@);
                assert(groups[k].params@[l].name@ == samplers[l].uniform_info.name@);
                assert(samplers[j].uniform_info.name@ != samplers[l].uniform_info.name@);
            }
        }
    }
    if crate::shader_params::names_unique(groups) {
        assert forall|bi: int, ui: int, bj: int, uj: int|
            0 <= bi < blocks.len() && 0 <= ui < blocks[bi].uniforms@.len() && 0 <= bj
                < blocks.len() && 0 <= uj < blocks[bj].uniforms@.len() && (bi != bj || ui != uj)
                implies (#[trigger] blocks[bi].uniforms@[ui].name@) != (
        #[trigger] blocks[bj].uniforms@[uj].name@) by {
            assert(groups[bi].params@[ui].name@ == blocks[bi].uniforms@[ui].name@);
            assert(groups[bj].params@[uj].name@ == blocks[bj].uniforms@[uj].name@);
            assert(groups[bi].params@[ui].name@ != groups[bj].params@[uj].name@);
        }
        assert forall|bi: int, ui: int, sx: int|
            0 <= bi < blocks.len() && 0 <= ui < blocks[bi].uniforms@.len() && 0 <= sx
                < samplers.len() implies (#[trigger] blocks[bi].uniforms@[ui].name@) != (
        #[trigger] samplers[sx].uniform_info.name@) by {
            assert(groups[bi].params@[ui].name@ == blocks[bi].uniforms@[ui].name@);
            assert(groups[b].params@[sx].name@ == samplers[sx].uniform_info.name@);
            assert(groups[bi].params@[ui].name@ != groups[b].params@[sx].name@);
        }
        assert forall|s1: int, s2: int|
            0 <= s1 < samplers.len() && 0 <= s2 < samplers.len() && s1 != s2 implies (
        #[trigger] samplers[s1].uniform_info.name@) != (
        #[trigger] samplers[s2].uniform_info.name@) by {
            assert(groups[b].params@[s1].name@ == samplers[s1].uniform_info.name@);
            assert(groups[b].params@[s2].name@ == samplers[s2].uniform_info.name@);
            assert(groups[b].params@[s1].name@ != groups[b].params@[s2].name@);
        }
    }
}

impl OpenGLRenderer {
    /// Derives the parameter schema a linked program exposes: one group
    /// per uniform block, every member zeroed per its type, plus one
    /// synthetic group of texture parameters, one per sampler. Fails
    /// exactly when a member's type cannot be represented or two
    /// parameters would share a name; the schema never grows afterwards.
    pub fn get_shader_params(
        &self,
        uniform_blocks: &Vec<GLUniformBlock>,
        samplers: &Vec<GLSampler2D>,
    ) -> (result: Result<ShaderParams, RenderError>)
        ensures
            result is Ok <==> all_kinds_supported(uniform_blocks@) && schema_distinct(
                uniform_blocks@,
                samplers@,
            ),
            result matches Ok(sp) ==> {
                &&& sp.wf()
                &&& schema_matches(uniform_blocks@, samplers@, sp.spec_groups())
                &&& sp.spec_changes() == Seq::<Seq<char>>::empty()
            },
            result matches Err(e) ==> (e == RenderError::UnsupportedUniformType
                <==> !all_kinds_supported(uniform_blocks@)),
            result matches Err(e) ==> e == RenderError::UnsupportedUniformType || e
                == RenderError::DuplicateParameterName,
    {
        let mut param_groups: Vec<ParamGroup> = Vec::new();
        let mut i: usize = 0;
        while i < uniform_blocks.len()
            invariant
                i <= uniform_blocks@.len(),
                param_groups@.len() == i,
                forall|i1: int|
                    0 <= i1 < i ==> {
                        &&& (#[trigger] param_groups@[i1]).name@ == uniform_blocks@[i1].name@
                        &&& param_groups@[i1].params@.len()
                            == uniform_blocks@[i1].uniforms@.len()
                        &&& forall|j: int|
                            0 <= j < uniform_blocks@[i1].uniforms@.len() ==> {
                                &&& (#[trigger] param_groups@[i1].params@[j]).name@
                                    == uniform_blocks@[i1].uniforms@[j].name@
                                &&& is_default_value(
                                    uniform_blocks@[i1].uniforms@[j].kind,
                                    param_groups@[i1].params@[j].value,
                                )
                            }
                    },
            decreases uniform_blocks@.len() - i,
        {
            let block = &uniform_blocks[i];
            let mut params: Vec<Param> = Vec::new();
            let mut j: usize = 0;
            while j < block.uniforms.len()
                invariant
                    i < uniform_blocks@.len(),
                    *block == uniform_blocks@[i as int],
                    j <= block.uniforms@.len(),
                    params@.len() == j,
                    forall|j1: int|
                        0 <= j1 < j ==> {
                            &&& (#[trigger] params@[j1]).name@ == block.uniforms@[j1].name@
                            &&& is_default_value(block.uniforms@[j1].kind, params@[j1].value)
                        },
                decreases block.uniforms@.len() - j,
            {
                let uniform = &block.uniforms[j];
                let value: ParamValue = match uniform.kind {
                    GlUniformKind::Float => ParamValue::F32(0),
                    GlUniformKind::Vec4 => {
                        let a: [crate::fixed::Fp; 4] = [0, 0, 0, 0];
                        proof {
                            assert(a@ =~= seq![0i32, 0i32, 0i32, 0i32]);
                        }
                        ParamValue::Vec4(a)
                    },
                    GlUniformKind::Mat3 => {
                        let a: [crate::fixed::Fp; 9] = [
                            crate::fixed::FP_ONE,
                            0,
                            0,
                            0,
                            crate::fixed::FP_ONE,
                            0,
                            0,
                            0,
                            crate::fixed::FP_ONE,
                        ];
                        proof {
                            assert(a@ =~= seq![
                                crate::fixed::FP_ONE,
                                0i32,
                                0i32,
                                0i32,
                                crate::fixed::FP_ONE,
                                0i32,
                                0i32,
                                0i32,
                                crate::fixed::FP_ONE,
                            ]);
                        }
                        ParamValue::Mat3(a)
                    },
                    GlUniformKind::Mat4 => {
                        let a: [crate::fixed::Fp; 16] = [
                            crate::fixed::FP_ONE,
                            0,
                            0,
                            0,
                            0,
                            crate::fixed::FP_ONE,
                            0,
                            0,
                            0,
                            0,
                            crate::fixed::FP_ONE,
                            0,
                            0,
                            0,
                            0,
                            crate::fixed::FP_ONE,
                        ];
                        proof {
                            assert(a@ =~= seq![
                                crate::fixed::FP_ONE,
                                0i32,
                                0i32,
                                0i32,
                                0i32,
                                crate::fixed::FP_ONE,
                                0i32,
                                0i32,
                                0i32,
                                0i32,
                                crate::fixed::FP_ONE,
                                0i32,
                                0i32,
                                0i32,
                                0i32,
                                crate::fixed::FP_ONE,
                            ]);
                        }
                        ParamValue::Mat4(a)
                    },
                    GlUniformKind::Sampler2D => {
                        return Err(RenderError::UnsupportedUniformType);
                    },
                    GlUniformKind::Other => {
                        return Err(RenderError::UnsupportedUniformType);
                    },
                };
                params.push(Param { name: uniform.name.clone(), value });
                j = j + 1;
            }
            param_groups.push(ParamGroup { name: block.name.clone(), params });
            i = i + 1;
        }
        let mut tex_params: Vec<Param> = Vec::new();
        let mut k: usize = 0;
        while k < samplers.len()
            invariant
                k <= samplers@.len(),
                tex_params@.len() == k,
                forall|k1: int|
                    0 <= k1 < k ==> {
                        &&& (#[trigger] tex_params@[k1]).name@
                            == samplers@[k1].uniform_info.name@
                        &&& tex_params@[k1].value == ParamValue::Texture2D(0u32)
                    },
            decreases samplers@.len() - k,
        {
            let sampler = &samplers[k];
            tex_params.push(
                Param { name: sampler.uniform_info.name.clone(), value: ParamValue::Texture2D(0) },
            );
            k = k + 1;
        }
        let tex_group_name: String = "_textures".to_owned();
        param_groups.push(ParamGroup { name: tex_group_name, params: tex_params });
        proof {
            assert(schema_matches(uniform_blocks@, samplers@, param_groups@));
            lemma_schema_unique(uniform_blocks@, samplers@, param_groups@);
            assert forall|b: int, u: int|
                0 <= b < uniform_blocks@.len() && 0 <= u
                    < uniform_blocks@[b].uniforms@.len() implies kind_supported(
                (#[trigger] uniform_blocks@[b].uniforms@[u]).kind,
            ) by {
                assert(is_default_value(
                    uniform_blocks@[b].uniforms@[u].kind,
                    param_groups@[b].params@[u].value,
                ));
            }
        }
        if !crate::shader_params::check_names_unique(&param_groups) {
            return Err(RenderError::DuplicateParameterName);
        }
        Ok(ShaderParams::new(param_groups))
    }
}


/// The 32-bit words a parameter value uploads (none for a texture: a
/// texture binds a unit instead of filling block memory).
pub open spec fn value_words(v: ParamValue) -> Seq<u32> {
    match v {
        ParamValue::F32(x) => seq![x as u32],
        ParamValue::Vec4(a) => a@.map_values(|e: crate::fixed::Fp| e as u32),
        ParamValue::Mat3(a) => a@.map_values(|e: crate::fixed::Fp| e as u32),
        ParamValue::Mat4(a) => a@.map_values(|e: crate::fixed::Fp| e as u32),
        ParamValue::Texture2D(_) => Seq::empty(),
    }
}

/// The value of the parameter named `name` (meaningful when the schema
/// holds the name; with unique names it is the one match's value).
pub open spec fn param_value_of(groups: Seq<ParamGroup>, name: Seq<char>) -> ParamValue {
    let (i, j) = choose|i: int, j: int|
        0 <= i < groups.len() && 0 <= j < groups[i].params@.len() && groups[i].params@[j].name@
            == name;
    groups[i].params@[j].value
}

/// The first sampler at or after position `k` whose uniform bears `name`.
pub open spec fn find_sampler_from(samplers: Seq<GLSampler2D>, name: Seq<char>, k: int) -> Option<
    int,
>
    decreases samplers.len() - k,
{
    if k < 0 || k >= samplers.len() {
        None
    } else if samplers[k].uniform_info.name@ == name {
        Some(k)
    } else {
        find_sampler_from(samplers, name, k + 1)
    }
}

/// The first member at or after position `j` named `name`.
pub open spec fn find_member_from(uniforms: Seq<GlUniformInfo>, name: Seq<char>, j: int) -> Option<
    int,
>
    decreases uniforms.len() - j,
{
    if j < 0 || j >= uniforms.len() {
        None
    } else if uniforms[j].name@ == name {
        Some(j)
    } else {
        find_member_from(uniforms, name, j + 1)
    }
}

/// The first block at or after position `b` holding a member named
/// `name`, with that member's position.
pub open spec fn find_block_from(blocks: Seq<GLUniformBlock>, name: Seq<char>, b: int) -> Option<
    (int, int),
>
    decreases blocks.len() - b,
{
    if b < 0 || b >= blocks.len() {
        None
    } else {
        match find_member_from(blocks[b].uniforms@, name, 0) {
            Some(j) => Some((b, j)),
            None => find_block_from(blocks, name, b + 1),
        }
    }
}

/// `bytes` with `data` written at `offset` (unchanged elsewhere).
pub open spec fn splice_bytes(bytes: Seq<u8>, offset: int, data: Seq<u8>) -> Seq<u8> {
    Seq::new(
        bytes.len(),
        |k: int|
            if offset <= k < offset + data.len() {
                data[k - offset]
            } else {
                bytes[k]
            },
    )
}

/// The parameter-application state the dirty names fold over: the
/// blocks' shadow bytes, the samplers' bound textures, the affected
/// block list, the sampler commands emitted so far, and whether every
/// step so far succeeded (a failed step freezes the state).
pub type ApplyState = (Seq<Seq<u8>>, Seq<u32>, Seq<usize>, Seq<GlCommand>, bool);

/// One dirty name applied: a texture value re-binds the matching
/// sampler and emits its unit assignment; any value written into the
/// first block member bearing the name updates that block's shadow
/// bytes at the member's offset and marks the block affected. A value
/// that would run past its block's end fails the application.
pub open spec fn apply_step(
    blocks: Seq<GLUniformBlock>,
    samplers: Seq<GLSampler2D>,
    groups: Seq<ParamGroup>,
    name: Seq<char>,
    st: ApplyState,
) -> ApplyState {
    if !st.4 {
        st
    } else {
        let v = param_value_of(groups, name);
        let st1 = match v {
            ParamValue::Texture2D(h) => match find_sampler_from(samplers, name, 0) {
                Some(sx) => (
                    st.0,
                    st.1.update(sx, h),
                    st.2,
                    st.3.push(
                        GlCommand::Uniform1i {
                            location: samplers[sx].uniform_info.index,
                            value: samplers[sx].tex_unit as i32,
                        },
                    ),
                    true,
                ),
                None => st,
            },
            _ => st,
        };
        match find_block_from(blocks, name, 0) {
            Some((b, j)) => {
                let member = blocks[b].uniforms@[j];
                let data = crate::buffer::words_bytes(value_words(v));
                if member.offset + data.len() <= st1.0[b].len() {
                    (
                        st1.0.update(b, splice_bytes(st1.0[b], member.offset as int, data)),
                        st1.1,
                        if st1.2.contains((b as usize)) {
                            st1.2
                        } else {
                            st1.2.push(b as usize)
                        },
                        st1.3,
                        true,
                    )
                } else {
                    (st1.0, st1.1, st1.2, st1.3, false)
                }
            },
            None => st1,
        }
    }
}

/// The dirty names applied in order, each step starting from the last.
pub open spec fn apply_names(
    blocks: Seq<GLUniformBlock>,
    samplers: Seq<GLSampler2D>,
    groups: Seq<ParamGroup>,
    names: Seq<Seq<char>>,
    st: ApplyState,
) -> ApplyState
    decreases names.len(),
{
    if names.len() == 0 {
        st
    } else {
        apply_names(blocks, samplers, groups, names.skip(1), apply_step(
            blocks,
            samplers,
            groups,
            names[0],
            st,
        ))
    }
}

/// Folding one more name steps the folded state once.
proof fn lemma_apply_names_push(
    blocks: Seq<GLUniformBlock>,
    samplers: Seq<GLSampler2D>,
    groups: Seq<ParamGroup>,
    names: Seq<Seq<char>>,
    name: Seq<char>,
    st: ApplyState,
)
    ensures
        apply_names(blocks, samplers, groups, names.push(name), st) == apply_step(
            blocks,
            samplers,
            groups,
            name,
            apply_names(blocks, samplers, groups, names, st),
        ),
    decreases names.len(),
{
    if names.len() == 0 {
        assert(names.push(name).skip(1) =~= Seq::<Seq<char>>::empty());
        assert(names.push(name)[0] == name);
        let st1 = apply_step(blocks, samplers, groups, name, st);
        assert(apply_names(blocks, samplers, groups, Seq::<Seq<char>>::empty(), st1) == st1);
        assert(apply_names(blocks, samplers, groups, names, st) == st);
    } else {
        assert(names.push(name).skip(1) =~= names.skip(1).push(name));
        assert(names.push(name)[0] == names[0]);
        lemma_apply_names_push(
            blocks,
            samplers,
            groups,
            names.skip(1),
            name,
            apply_step(blocks, samplers, groups, names[0], st),
        );
    }
}

/// A frozen fold stays frozen.
proof fn lemma_apply_names_frozen(
    blocks: Seq<GLUniformBlock>,
    samplers: Seq<GLSampler2D>,
    groups: Seq<ParamGroup>,
    names: Seq<Seq<char>>,
    st: ApplyState,
)
    requires
        !st.4,
    ensures
        apply_names(blocks, samplers, groups, names, st) == st,
    decreases names.len(),
{
    if names.len() > 0 {
        lemma_apply_names_frozen(blocks, samplers, groups, names.skip(1), st);
    }
}

/// The upload command tail for the affected blocks, in order: a bind
/// where the block's buffer is not already bound, then the full shadow
/// upload.
pub open spec fn upload_cmds_ok(
    blocks: Seq<GLUniformBlock>,
    affected: Seq<usize>,
    entry_ubo: u32,
    cmds: Seq<GlCommand>,
) -> bool
    decreases affected.len(),
{
    if affected.len() == 0 {
        cmds.len() == 0
    } else {
        let b = affected[0] as int;
        0 <= b < blocks.len() && {
            let buf = blocks[b].buffer;
            let shadow = blocks[b].buffer_data.bytes@;
            if entry_ubo == buf {
                &&& cmds.len() >= 1
                &&& cmds[0] matches GlCommand::UniformBufferSubData { bytes } && bytes@ == shadow
                &&& upload_cmds_ok(blocks, affected.skip(1), buf, cmds.skip(1))
            } else {
                &&& cmds.len() >= 2
                &&& cmds[0] == GlCommand::BindUniformBuffer(buf)
                &&& cmds[1] matches GlCommand::UniformBufferSubData { bytes } && bytes@ == shadow
                &&& upload_cmds_ok(blocks, affected.skip(1), buf, cmds.skip(2))
            }
        }
    }
}

/// The uniform buffer bound after uploading the affected blocks.
pub open spec fn upload_last_ubo(blocks: Seq<GLUniformBlock>, affected: Seq<usize>, entry_ubo: u32) -> u32 {
    if affected.len() == 0 {
        entry_ubo
    } else {
        blocks[affected.last() as int].buffer
    }
}

/// Uploading one more affected block appends its piece.
proof fn lemma_upload_push(
    blocks: Seq<GLUniformBlock>,
    affected: Seq<usize>,
    entry_ubo: u32,
    cmds: Seq<GlCommand>,
    b: usize,
    piece: Seq<GlCommand>,
)
    requires
        upload_cmds_ok(blocks, affected, entry_ubo, cmds),
        0 <= b < blocks.len(),
        ({
            let cached = upload_last_ubo(blocks, affected, entry_ubo);
            let buf = blocks[b as int].buffer;
            if cached == buf {
                piece.len() == 1 && (piece[0] matches GlCommand::UniformBufferSubData { bytes }
                    && bytes@ == blocks[b as int].buffer_data.bytes@)
            } else {
                piece.len() == 2 && piece[0] == GlCommand::BindUniformBuffer(buf) && (piece[1]
                    matches GlCommand::UniformBufferSubData { bytes } && bytes@ == blocks[
                    b as int
                ].buffer_data.bytes@)
            }
        }),
    ensures
        upload_cmds_ok(blocks, affected.push(b), entry_ubo, cmds + piece),
    decreases affected.len(),
{
    if affected.len() == 0 {
        let buf = blocks[b as int].buffer;
        assert(affected.push(b)[0] == b);
        assert(affected.push(b).skip(1) =~= Seq::<usize>::empty());
        assert(upload_cmds_ok(blocks, Seq::<usize>::empty(), buf, Seq::<GlCommand>::empty()));
        if entry_ubo == buf {
            assert((cmds + piece).skip(1) =~= Seq::<GlCommand>::empty());
        } else {
            assert((cmds + piece)[0] == piece[0]);
            assert((cmds + piece)[1] == piece[1]);
            assert((cmds + piece).skip(2) =~= Seq::<GlCommand>::empty());
        }
    } else {
        let a0 = affected[0] as int;
        let buf0 = blocks[a0].buffer;
        assert(affected.push(b)[0] == affected[0]);
        assert(affected.push(b).skip(1) =~= affected.skip(1).push(b));
        assert(upload_last_ubo(blocks, affected.skip(1), buf0) == upload_last_ubo(
            blocks,
            affected,
            entry_ubo,
        ));
        if entry_ubo == buf0 {
            lemma_upload_push(blocks, affected.skip(1), buf0, cmds.skip(1), b, piece);
            assert((cmds + piece)[0] == cmds[0]);
            assert((cmds + piece).skip(1) =~= cmds.skip(1) + piece);
        } else {
            lemma_upload_push(blocks, affected.skip(1), buf0, cmds.skip(2), b, piece);
            assert((cmds + piece)[0] == cmds[0]);
            assert((cmds + piece)[1] == cmds[1]);
            assert((cmds + piece).skip(2) =~= cmds.skip(2) + piece);
        }
    }
}

/// The words a value uploads, as a vector.
fn value_to_words(v: &ParamValue) -> (words: Vec<u32>)
    ensures
        words@ == value_words(*v),
{
    let mut words: Vec<u32> = Vec::new();
    match v {
        ParamValue::F32(x) => {
            words.push(*x as u32);
            proof {
                assert(words@ =~= value_words(*v));
            }
        },
        ParamValue::Vec4(a) => {
            let mut k: usize = 0;
            while k < 4
                invariant
                    k <= 4,
                    words@.len() == k,
                    forall|i: int| 0 <= i < k ==> words@[i] == a@[i] as u32,
                decreases 4 - k,
            {
                words.push(a[k] as u32);
                k = k + 1;
            }
            proof {
                assert(words@ =~= value_words(*v));
            }
        },
        ParamValue::Mat3(a) => {
            let mut k: usize = 0;
            while k < 9
                invariant
                    k <= 9,
                    words@.len() == k,
                    forall|i: int| 0 <= i < k ==> words@[i] == a@[i] as u32,
                decreases 9 - k,
            {
                words.push(a[k] as u32);
                k = k + 1;
            }
            proof {
                assert(words@ =~= value_words(*v));
            }
        },
        ParamValue::Mat4(a) => {
            let mut k: usize = 0;
            while k < 16
                invariant
                    k <= 16,
                    words@.len() == k,
                    forall|i: int| 0 <= i < k ==> words@[i] == a@[i] as u32,
                decreases 16 - k,
            {
                words.push(a[k] as u32);
                k = k + 1;
            }
            proof {
                assert(words@ =~= value_words(*v));
            }
        },
        ParamValue::Texture2D(_) => {
            proof {
                assert(words@ =~= value_words(*v));
            }
        },
    }
    words
}

/// Whether a block-index list already holds `x`.
fn contains_handle(v: &Vec<usize>, x: usize) -> (found: bool)
    ensures
        found == v@.contains(x),
{
    let mut i: usize = 0;
    while i < v.len()
        invariant
            i <= v@.len(),
            forall|k: int| 0 <= k < i ==> v@[k] != x,
        decreases v@.len() - i,
    {
        if v[i] == x {
            return true;
        }
        i = i + 1;
    }
    proof {
        assert(!v@.contains(x));
    }
    false
}


/// Folding a name list is folding a prefix, then the rest from there.
proof fn lemma_apply_names_split(
    blocks: Seq<GLUniformBlock>,
    samplers: Seq<GLSampler2D>,
    groups: Seq<ParamGroup>,
    names: Seq<Seq<char>>,
    k: int,
    st: ApplyState,
)
    requires
        0 <= k <= names.len(),
    ensures
        apply_names(blocks, samplers, groups, names, st) == apply_names(
            blocks,
            samplers,
            groups,
            names.skip(k),
            apply_names(blocks, samplers, groups, names.subrange(0, k), st),
        ),
    decreases k,
{
    if k == 0 {
        assert(names.subrange(0, 0) =~= Seq::<Seq<char>>::empty());
        assert(names.skip(0) =~= names);
    } else {
        lemma_apply_names_split(blocks, samplers, groups, names, k - 1, st);
        let a = apply_names(blocks, samplers, groups, names.subrange(0, k - 1), st);
        assert(names.skip(k - 1)[0] == names[k - 1]);
        assert(names.skip(k - 1).skip(1) =~= names.skip(k));
        lemma_apply_names_push(blocks, samplers, groups, names.subrange(0, k - 1), names[k - 1], st);
        assert(names.subrange(0, k - 1).push(names[k - 1]) =~= names.subrange(0, k));
    }
}

impl OpenGLRenderer {
    /// Drains the geometry's dirty names and applies each in order: a
    /// texture value re-binds the matching sampler's unit; any other
    /// value is written into its block's shadow bytes at the member's
    /// reflected offset, and the block is marked affected. Afterwards
    /// each affected block's whole shadow buffer is uploaded once, in
    /// the order the blocks were first touched. Fails exactly when a
    /// value runs past the end of its block; the shadow state then holds
    /// the updates of the names before the failing one, and nothing is
    /// uploaded.
    pub fn apply_shader_params(
        &mut self,
        geom: &mut OpenGLGeometry,
        cmds: &mut Vec<GlCommand>,
    ) -> (result: Result<(), RenderError>)
        requires
            old(self).wf(),
            old(geom).program < old(self).progs@.len(),
            old(geom).params.wf(),
        ensures
            ({
                let ph = old(geom).program as int;
                let blocks0 = old(self).progs@[ph].uniform_blocks@;
                let samplers0 = old(self).progs@[ph].sampler2ds@;
                let groups0 = old(geom).params.spec_groups();
                let names0 = old(geom).params.spec_changes();
                let st0 = (
                    blocks0.map_values(|b: GLUniformBlock| b.buffer_data.bytes@),
                    samplers0.map_values(|sm: GLSampler2D| sm.tex_id),
                    Seq::<usize>::empty(),
                    Seq::<GlCommand>::empty(),
                    true,
                );
                let stf = apply_names(blocks0, samplers0, groups0, names0, st0);
                &&& final(self).wf()
                &&& final(geom).params.wf()
                &&& final(geom).params.spec_groups() == groups0
                &&& final(geom).params.spec_changes() == Seq::<Seq<char>>::empty()
                &&& final(geom).vbo == old(geom).vbo
                &&& final(geom).ibo == old(geom).ibo
                &&& final(geom).vao == old(geom).vao
                &&& final(geom).program == old(geom).program
                &&& final(geom).layout_desc == old(geom).layout_desc
                &&& (result is Ok <==> stf.4)
                &&& result is Err ==> result == Result::<(), RenderError>::Err(
                    RenderError::ValueOutsideBlock,
                )
                &&& final(self).vbos@ == old(self).vbos@
                &&& final(self).ibos@ == old(self).ibos@
                &&& final(self).vaos@ == old(self).vaos@
                &&& final(self).next_id == old(self).next_id
                &&& final(self).progs@.len() == old(self).progs@.len()
                &&& forall|p: int|
                    0 <= p < old(self).progs@.len() && p != ph ==> final(self).progs@[p] == old(
                        self,
                    ).progs@[p]
                &&& final(self).progs@[ph].id == old(self).progs@[ph].id
                &&& final(self).progs@[ph].uniform_blocks@.len() == blocks0.len()
                &&& forall|b: int|
                    0 <= b < blocks0.len() ==> {
                        let blk = #[trigger] final(self).progs@[ph].uniform_blocks@[b];
                        &&& blk.name == blocks0[b].name
                        &&& blk.size == blocks0[b].size
                        &&& blk.buffer == blocks0[b].buffer
                        &&& blk.uniforms@ == blocks0[b].uniforms@
                        &&& blk.buffer_data.bytes@ == stf.0[b]
                    }
                &&& final(self).progs@[ph].sampler2ds@.len() == samplers0.len()
                &&& forall|k: int|
                    0 <= k < samplers0.len() ==> {
                        let sm = #[trigger] final(self).progs@[ph].sampler2ds@[k];
                        &&& sm.uniform_info == samplers0[k].uniform_info
                        &&& sm.tex_unit == samplers0[k].tex_unit
                        &&& sm.tex_id == stf.1[k]
                    }
                &&& final(self).state.spec_prog() == old(self).state.spec_prog()
                &&& final(self).state.spec_vao() == old(self).state.spec_vao()
                &&& final(self).state.spec_vbo() == old(self).state.spec_vbo()
                &&& final(self).state.spec_ibo() == old(self).state.spec_ibo()
                &&& final(self).state.spec_tex_units() == old(self).state.spec_tex_units()
                &&& final(cmds)@.len() >= old(cmds)@.len() + stf.3.len()
                &&& final(cmds)@.subrange(0, old(cmds)@.len() as int) == old(cmds)@
                &&& final(cmds)@.subrange(
                    old(cmds)@.len() as int,
                    old(cmds)@.len() as int + stf.3.len() as int,
                ) == stf.3
                &&& result is Ok ==> {
                    &&& upload_cmds_ok(
                        final(self).progs@[ph].uniform_blocks@,
                        stf.2,
                        old(self).state.spec_ubo(),
                        final(cmds)@.skip(old(cmds)@.len() as int + stf.3.len() as int),
                    )
                    &&& final(self).state.spec_ubo() == upload_last_ubo(
                        final(self).progs@[ph].uniform_blocks@,
                        stf.2,
                        old(self).state.spec_ubo(),
                    )
                }
                &&& result is Err ==> {
                    &&& final(cmds)@.len() == old(cmds)@.len() + stf.3.len()
                    &&& final(self).state.spec_ubo() == old(self).state.spec_ubo()
                }
            }),
    {
        let ph = geom.program;
        proof {
            crate::shader_params::lemma_wf_changes_present(&geom.params);
        }
        let changes = geom.params.flush_changes();
        let ghost blocks0 = self.progs@[ph as int].uniform_blocks@;
        let ghost samplers0 = self.progs@[ph as int].sampler2ds@;
        let ghost groups0 = geom.params.spec_groups();
        let ghost names0 = changes.deep_view();
        let ghost st0: ApplyState = (
            blocks0.map_values(|b: GLUniformBlock| b.buffer_data.bytes@),
            samplers0.map_values(|sm: GLSampler2D| sm.tex_id),
            Seq::<usize>::empty(),
            Seq::<GlCommand>::empty(),
            true,
        );
        let ghost mut st: ApplyState = st0;
        let mut affected: Vec<usize> = Vec::new();
        let mut i: usize = 0;
        proof {
            assert(names0.subrange(0, 0) =~= Seq::<Seq<char>>::empty());
            assert(st.0 == blocks0.map_values(|b: GLUniformBlock| b.buffer_data.bytes@));
        }
        while i < changes.len()
            invariant
                i <= names0.len(),
                changes.deep_view() == names0,
                changes@.len() == names0.len(),
                forall|k: int| 0 <= k < names0.len() ==> #[trigger] changes@[k]@ == names0[k],
                forall|k: int|
                    0 <= k < names0.len() ==> crate::shader_params::groups_have(
                        groups0,
                        #[trigger] names0[k],
                    ),
                geom.params.wf(),
                geom.params.spec_groups() == groups0,
                geom.params.spec_changes() == Seq::<Seq<char>>::empty(),
                geom.vbo == old(geom).vbo,
                geom.ibo == old(geom).ibo,
                geom.vao == old(geom).vao,
                geom.program == old(geom).program,
                geom.layout_desc == old(geom).layout_desc,
                ph == old(geom).program,
                ph < self.progs@.len(),
                old(self).wf(),
                blocks0 == old(self).progs@[ph as int].uniform_blocks@,
                samplers0 == old(self).progs@[ph as int].sampler2ds@,
                groups0 == old(geom).params.spec_groups(),
                names0 == old(geom).params.spec_changes(),
                st0 == (
                    blocks0.map_values(|b: GLUniformBlock| b.buffer_data.bytes@),
                    samplers0.map_values(|sm: GLSampler2D| sm.tex_id),
                    Seq::<usize>::empty(),
                    Seq::<GlCommand>::empty(),
                    true,
                ),
                st == apply_names(blocks0, samplers0, groups0, names0.subrange(0, i as int), st0),
                st.4,
                st.0.len() == blocks0.len(),
                st.1.len() == samplers0.len(),
                st.2 == affected@,
                forall|x: int| 0 <= x < affected@.len() ==> (#[trigger] affected@[x]) < blocks0.len(),
                cmds@ == old(cmds)@ + st.3,
                self.vbos@ == old(self).vbos@,
                self.ibos@ == old(self).ibos@,
                self.vaos@ == old(self).vaos@,
                self.next_id == old(self).next_id,
                self.progs@.len() == old(self).progs@.len(),
                forall|p: int|
                    0 <= p < self.progs@.len() && p != ph ==> #[trigger] self.progs@[p] == old(
                        self,
                    ).progs@[p],
                self.progs@[ph as int].id == old(self).progs@[ph as int].id,
                self.progs@[ph as int].uniform_blocks@.len() == blocks0.len(),
                forall|b: int|
                    0 <= b < blocks0.len() ==> {
                        let blk = #[trigger] self.progs@[ph as int].uniform_blocks@[b];
                        &&& blk.name == blocks0[b].name
                        &&& blk.size == blocks0[b].size
                        &&& blk.buffer == blocks0[b].buffer
                        &&& blk.uniforms@ == blocks0[b].uniforms@
                        &&& blk.buffer_data.bytes@ == st.0[b]
                        &&& blk.buffer_data.bytes@.len() == blocks0[b].buffer_data.bytes@.len()
                    },
                self.progs@[ph as int].sampler2ds@.len() == samplers0.len(),
                forall|k: int|
                    0 <= k < samplers0.len() ==> {
                        let sm = #[trigger] self.progs@[ph as int].sampler2ds@[k];
                        &&& sm.uniform_info == samplers0[k].uniform_info
                        &&& sm.tex_unit == samplers0[k].tex_unit
                        &&& sm.tex_id == st.1[k]
                    },
                self.state.spec_prog() == old(self).state.spec_prog(),
                self.state.spec_vao() == old(self).state.spec_vao(),
                self.state.spec_vbo() == old(self).state.spec_vbo(),
                self.state.spec_ibo() == old(self).state.spec_ibo(),
                self.state.spec_ubo() == old(self).state.spec_ubo(),
                self.state.spec_tex_units() == old(self).state.spec_tex_units(),
            decreases changes@.len() - i,
        {
            let name = &changes[i];
            proof {
                lemma_apply_names_push(
                    blocks0,
                    samplers0,
                    groups0,
                    names0.subrange(0, i as int),
                    names0[i as int],
                    st0,
                );
                assert(names0.subrange(0, i + 1) =~= names0.subrange(0, i as int).push(
                    names0[i as int],
                ));
            }
            let ghost st_next = apply_step(blocks0, samplers0, groups0, names0[i as int], st);
            let value: ParamValue = match geom.params.get(name.as_str()) {
                Ok(v) => *v,
                Err(_) => {
                    proof {
                        assert(crate::shader_params::groups_have(groups0, names0[i as int]));
                        assert(false);
                    }
                    ParamValue::F32(0)
                },
            };
            proof {
                let (gi, gj) = choose|gi: int, gj: int|
                    0 <= gi < groups0.len() && 0 <= gj < groups0[gi].params@.len()
                        && groups0[gi].params@[gj].name@ == names0[i as int];
                assert(groups0[gi].params@[gj].value == value);
                assert(param_value_of(groups0, names0[i as int]) == value);
            }
            let ghost st1 = if st.4 {
                match param_value_of(groups0, names0[i as int]) {
                    ParamValue::Texture2D(h) => match find_sampler_from(
                        samplers0,
                        names0[i as int],
                        0,
                    ) {
                        Some(sx) => (
                            st.0,
                            st.1.update(sx, h),
                            st.2,
                            st.3.push(
                                GlCommand::Uniform1i {
                                    location: samplers0[sx].uniform_info.index,
                                    value: samplers0[sx].tex_unit as i32,
                                },
                            ),
                            true,
                        ),
                        None => st,
                    },
                    _ => st,
                }
            } else {
                st
            };
            match value {
                ParamValue::Texture2D(tex_handle) => {
                    let mut j: usize = 0;
                    let mut found: bool = false;
                    while j < self.progs[ph].sampler2ds.len() && !found
                        invariant
                            ph < self.progs@.len(),
                            self.progs@[ph as int].sampler2ds@.len() == samplers0.len(),
                            forall|k: int|
                                0 <= k < samplers0.len() ==> {
                                    let sm = #[trigger] self.progs@[ph as int].sampler2ds@[k];
                                    &&& sm.uniform_info == samplers0[k].uniform_info
                                    &&& sm.tex_unit == samplers0[k].tex_unit
                                    &&& sm.tex_id == st.1[k]
                                },
                            i < changes@.len(),
                            changes@[i as int]@ == names0[i as int],
                            name@ == names0[i as int],
                            j <= samplers0.len(),
                            !found ==> find_sampler_from(samplers0, names0[i as int], 0)
                                == find_sampler_from(samplers0, names0[i as int], j as int),
                            found ==> j < samplers0.len() && find_sampler_from(
                                samplers0,
                                names0[i as int],
                                0,
                            ) == Some(j as int),
                        decreases samplers0.len() - j, (if found { 0int } else { 1int }),
                    {
                        proof {
                            assert(self.progs@[ph as int].sampler2ds@[j as int].uniform_info
                                == samplers0[j as int].uniform_info);
                        }
                        let sampler_name_matches = {
                            let prog = &self.progs[ph];
                            let sampler = &prog.sampler2ds[j];
                            *(&sampler.uniform_info.name) == *name
                        };
                        if sampler_name_matches {
                            found = true;
                            assert(find_sampler_from(samplers0, names0[i as int], j as int)
                                == Some(j as int));
                        } else {
                            assert(samplers0[j as int].uniform_info.name@ != names0[i as int]);
                            assert(find_sampler_from(samplers0, names0[i as int], j as int)
                                == find_sampler_from(samplers0, names0[i as int], j + 1));
                            j = j + 1;
                        }
                    }
                    if found {
                        let location = self.progs[ph].sampler2ds[j].uniform_info.index;
                        let unit = self.progs[ph].sampler2ds[j].tex_unit;
                        self.progs[ph].sampler2ds[j].tex_id = tex_handle;
                        cmds.push(GlCommand::Uniform1i { location, value: unit as i32 });
                        proof {
                            assert(st1.1 =~= st.1.update(j as int, tex_handle));
                            assert(cmds@ =~= old(cmds)@ + st1.3);
                        }
                    } else {
                        proof {
                            assert(find_sampler_from(samplers0, names0[i as int], 0) is None);
                            assert(st1 == st);
                        }
                    }
                },
                _ => {
                    proof {
                        assert(st1 == st);
                    }
                },
            }
            let mut b: usize = 0;
            let mut member: Option<(usize, usize)> = None;
            while b < self.progs[ph].uniform_blocks.len() && member.is_none()
                invariant
                    ph < self.progs@.len(),
                    self.progs@[ph as int].uniform_blocks@.len() == blocks0.len(),
                    forall|b1: int|
                        0 <= b1 < blocks0.len()
                            ==> (#[trigger] self.progs@[ph as int].uniform_blocks@[b1]).uniforms@
                            == blocks0[b1].uniforms@,
                    i < changes@.len(),
                    changes@[i as int]@ == names0[i as int],
                    name@ == names0[i as int],
                    b <= blocks0.len(),
                    member is None ==> find_block_from(blocks0, names0[i as int], 0)
                        == find_block_from(blocks0, names0[i as int], b as int),
                    member matches Some((bb, jj)) ==> find_block_from(blocks0, names0[i as int], 0)
                        == Some((bb as int, jj as int)) && bb < blocks0.len() && jj < blocks0[
                        bb as int
                    ].uniforms@.len(),
                decreases blocks0.len() - b, (if member is None { 1int } else { 0int }),
            {
                let mut j: usize = 0;
                let block_len = {
                    let prog = &self.progs[ph];
                    prog.uniform_blocks[b].uniforms.len()
                };
                while j < block_len && member.is_none()
                    invariant
                        ph < self.progs@.len(),
                        self.progs@[ph as int].uniform_blocks@.len() == blocks0.len(),
                        forall|b1: int|
                            0 <= b1 < blocks0.len()
                                ==> (#[trigger] self.progs@[ph
                                as int].uniform_blocks@[b1]).uniforms@ == blocks0[b1].uniforms@,
                        i < changes@.len(),
                        changes@[i as int]@ == names0[i as int],
                        name@ == names0[i as int],
                        b < blocks0.len(),
                        block_len == blocks0[b as int].uniforms@.len(),
                        j <= block_len,
                        member is None ==> find_member_from(
                            blocks0[b as int].uniforms@,
                            names0[i as int],
                            0,
                        ) == find_member_from(blocks0[b as int].uniforms@, names0[i as int], j as int),
                        member matches Some((bb, jj)) ==> bb == b && jj < blocks0[
                            b as int
                        ].uniforms@.len() && find_member_from(
                            blocks0[b as int].uniforms@,
                            names0[i as int],
                            0,
                        ) == Some(jj as int),
                    decreases block_len - j, (if member is None { 1int } else { 0int }),
                {
                    proof {
                        assert(self.progs@[ph as int].uniform_blocks@[b as int].uniforms@
                            == blocks0[b as int].uniforms@);
                    }
                    let member_name_matches = {
                        let prog = &self.progs[ph];
                        let uniform = &prog.uniform_blocks[b].uniforms[j];
                        *(&uniform.name) == *name
                    };
                    if member_name_matches {
                        member = Some((b, j));
                        assert(find_member_from(blocks0[b as int].uniforms@, names0[i as int], j as int)
                            == Some(j as int));
                    } else {
                        assert(blocks0[b as int].uniforms@[j as int].name@ != names0[i as int]);
                        assert(find_member_from(blocks0[b as int].uniforms@, names0[i as int], j as int)
                            == find_member_from(blocks0[b as int].uniforms@, names0[i as int], j + 1));
                        j = j + 1;
                    }
                }
                if member.is_none() {
                    b = b + 1;
                }
            }
            match member {
                Some((bb, jj)) => {
                    let offset = {
                        let prog = &self.progs[ph];
                        prog.uniform_blocks[bb].uniforms[jj].offset
                    };
                    let words = value_to_words(&value);
                    proof {
                        crate::buffer::lemma_words_bytes_len(words@);
                    }
                    if !contains_handle(&affected, bb) {
                        affected.push(bb);
                    }
                    let update_result = self.progs[ph].uniform_blocks[bb].buffer_data.update_region(
                        offset,
                        &words,
                    );
                    match update_result {
                        Ok(()) => {
                            proof {
                                let data = crate::buffer::words_bytes(value_words(value));
                                let shadow = self.progs@[ph as int].uniform_blocks@[
                                    bb as int
                                ].buffer_data.bytes@;
                                assert(shadow =~= splice_bytes(
                                    st1.0[bb as int],
                                    offset as int,
                                    data,
                                ));
                                assert(st_next.0 =~= st1.0.update(
                                    bb as int,
                                    splice_bytes(st1.0[bb as int], offset as int, data),
                                ));
                                if st1.2.contains(bb) {
                                    assert(st_next.2 =~= st1.2);
                                } else {
                                    assert(st_next.2 =~= st1.2.push(bb));
                                }
                            }
                        },
                        Err(_) => {
                            proof {
                                assert(!st_next.4);
                                lemma_apply_names_split(
                                    blocks0,
                                    samplers0,
                                    groups0,
                                    names0,
                                    i + 1,
                                    st0,
                                );
                                lemma_apply_names_frozen(
                                    blocks0,
                                    samplers0,
                                    groups0,
                                    names0.skip(i + 1),
                                    st_next,
                                );
                                assert(apply_names(blocks0, samplers0, groups0, names0, st0)
                                    == st_next);
                            }
                            return Err(RenderError::ValueOutsideBlock);
                        },
                    }
                },
                None => {
                    proof {
                        assert(st_next == st1);
                    }
                },
            }
            proof {
                st = st_next;
            }
            i = i + 1;
        }
        proof {
            assert(names0.subrange(0, names0.len() as int) =~= names0);
        }
        let ghost stf = st;
        let ghost entry_ubo = self.state.spec_ubo();
        let ghost mid = cmds@;
        let ghost progs_snapshot = self.progs@;
        let mut k: usize = 0;
        while k < affected.len()
            invariant
                ph < self.progs@.len(),
                self.progs@[ph as int].uniform_blocks@.len() == blocks0.len(),
                forall|x: int| 0 <= x < affected@.len() ==> (#[trigger] affected@[x]) < blocks0.len(),
                k <= affected@.len(),
                cmds@.len() >= mid.len(),
                cmds@.subrange(0, mid.len() as int) == mid,
                upload_cmds_ok(
                    self.progs@[ph as int].uniform_blocks@,
                    affected@.subrange(0, k as int),
                    entry_ubo,
                    cmds@.skip(mid.len() as int),
                ),
                self.state.spec_ubo() == upload_last_ubo(
                    self.progs@[ph as int].uniform_blocks@,
                    affected@.subrange(0, k as int),
                    entry_ubo,
                ),
                self.state.spec_prog() == old(self).state.spec_prog(),
                self.state.spec_vao() == old(self).state.spec_vao(),
                self.state.spec_vbo() == old(self).state.spec_vbo(),
                self.state.spec_ibo() == old(self).state.spec_ibo(),
                self.state.spec_tex_units() == old(self).state.spec_tex_units(),
                self.vbos@ == old(self).vbos@,
                self.ibos@ == old(self).ibos@,
                self.vaos@ == old(self).vaos@,
                self.next_id == old(self).next_id,
                self.progs@ == progs_snapshot,
            decreases affected@.len() - k,
        {
            let bb = affected[k];
            let buf = self.progs[ph].uniform_blocks[bb].buffer;
            let ghost cached = self.state.spec_ubo();
            let ghost tail_before = cmds@.skip(mid.len() as int);
            let mut piece_len: usize = 1;
            match self.state.set_ubo(buf) {
                Some(cmd) => {
                    cmds.push(cmd);
                    piece_len = 2;
                },
                None => (),
            }
            let shadow_copy = {
                let prog = &self.progs[ph];
                prog.uniform_blocks[bb].buffer_data.bytes.clone()
            };
            cmds.push(GlCommand::UniformBufferSubData { bytes: shadow_copy });
            proof {
                let blocks_now = self.progs@[ph as int].uniform_blocks@;
                let piece = cmds@.skip(mid.len() as int).skip(tail_before.len() as int);
                assert(cmds@.skip(mid.len() as int) =~= tail_before + piece);
                lemma_upload_push(
                    blocks_now,
                    affected@.subrange(0, k as int),
                    entry_ubo,
                    tail_before,
                    bb,
                    piece,
                );
                assert(affected@.subrange(0, k + 1) =~= affected@.subrange(0, k as int).push(bb));
                assert(cmds@.subrange(0, mid.len() as int) =~= mid);
            }
            k = k + 1;
        }
        proof {
            assert(affected@.subrange(0, affected@.len() as int) =~= affected@);
            assert(mid == old(cmds)@ + stf.3);
            assert(cmds@.subrange(0, mid.len() as int) == mid);
            assert forall|x: int| 0 <= x < mid.len() implies cmds@[x] == mid[x] by {
                assert(cmds@.subrange(0, mid.len() as int)[x] == cmds@[x]);
            }
            assert(cmds@.subrange(0, old(cmds)@.len() as int) =~= old(cmds)@);
            assert forall|x: int| 0 <= x < stf.3.len() implies cmds@.subrange(
                old(cmds)@.len() as int,
                old(cmds)@.len() as int + stf.3.len() as int,
            )[x] == stf.3[x] by {
                assert(cmds@[old(cmds)@.len() + x] == mid[old(cmds)@.len() + x]);
                assert(mid[old(cmds)@.len() + x] == stf.3[x]);
            }
            assert(cmds@.subrange(old(cmds)@.len() as int, old(cmds)@.len() as int + stf.3.len() as int)
                =~= stf.3);
            assert(cmds@.skip(old(cmds)@.len() as int + stf.3.len() as int) =~= cmds@.skip(mid.len() as int));
        }
        Ok(())
    }
}


/// One sampler's texture bind folded over the unit cache: the cache
/// takes the sampler's texture, and a bind command is emitted exactly
/// when the unit did not already hold it.
pub open spec fn tex_bind_step(sm: GLSampler2D, st: (Map<u32, u32>, Seq<GlCommand>)) -> (
    Map<u32, u32>,
    Seq<GlCommand>,
) {
    let already = st.0.contains_key(sm.tex_unit) && st.0[sm.tex_unit] == sm.tex_id;
    (
        st.0.insert(sm.tex_unit, sm.tex_id),
        if already {
            st.1
        } else {
            st.1.push(GlCommand::BindTexture { unit: sm.tex_unit, texture: sm.tex_id })
        },
    )
}

/// All samplers' texture binds, in order.
pub open spec fn tex_binds(samplers: Seq<GLSampler2D>, st: (Map<u32, u32>, Seq<GlCommand>)) -> (
    Map<u32, u32>,
    Seq<GlCommand>,
)
    decreases samplers.len(),
{
    if samplers.len() == 0 {
        st
    } else {
        tex_binds(samplers.skip(1), tex_bind_step(samplers[0], st))
    }
}

/// Folding one more sampler steps the fold once.
proof fn lemma_tex_binds_push(
    samplers: Seq<GLSampler2D>,
    sm: GLSampler2D,
    st: (Map<u32, u32>, Seq<GlCommand>),
)
    ensures
        tex_binds(samplers.push(sm), st) == tex_bind_step(sm, tex_binds(samplers, st)),
    decreases samplers.len(),
{
    if samplers.len() == 0 {
        assert(samplers.push(sm).skip(1) =~= Seq::<GLSampler2D>::empty());
        assert(samplers.push(sm)[0] == sm);
        let st1 = tex_bind_step(sm, st);
        assert(tex_binds(Seq::<GLSampler2D>::empty(), st1) == st1);
        assert(tex_binds(samplers, st) == st);
    } else {
        assert(samplers.push(sm).skip(1) =~= samplers.skip(1).push(sm));
        assert(samplers.push(sm)[0] == samplers[0]);
        lemma_tex_binds_push(samplers.skip(1), sm, tex_bind_step(samplers[0], st));
    }
}

/// A field-for-field copy of a vertex layout.
fn clone_layout(desc: &VertexLayoutDescription) -> (r: VertexLayoutDescription)
    ensures
        r.elements@ == desc.elements@,
{
    let mut elements: Vec<crate::vertex_layout::VertexElement> = Vec::new();
    let mut i: usize = 0;
    while i < desc.elements.len()
        invariant
            i <= desc.elements@.len(),
            elements@ == desc.elements@.subrange(0, i as int),
        decreases desc.elements@.len() - i,
    {
        let e = &desc.elements[i];
        elements.push(
            crate::vertex_layout::VertexElement {
                vtype: e.vtype,
                name: e.name.clone(),
                offset: e.offset,
            },
        );
        proof {
            assert(elements@ =~= desc.elements@.subrange(0, i + 1));
        }
        i = i + 1;
    }
    proof {
        assert(desc.elements@.subrange(0, desc.elements@.len() as int) =~= desc.elements@);
    }
    VertexLayoutDescription { elements }
}

impl OpenGLRenderer {
    /// Binds the four objects (skipping binds already in effect), binds
    /// each sampler's texture to its unit, and draws the index buffer as
    /// triangles.
    fn draw_vertex_arrays(
        &mut self,
        vboh: usize,
        vaoh: usize,
        iboh: usize,
        progh: usize,
        cmds: &mut Vec<GlCommand>,
    )
        requires
            old(self).wf(),
            vboh < old(self).vbos@.len(),
            vaoh < old(self).vaos@.len(),
            iboh < old(self).ibos@.len(),
            progh < old(self).progs@.len(),
        ensures
            final(self).wf(),
            final(self).vbos@ == old(self).vbos@,
            final(self).ibos@ == old(self).ibos@,
            final(self).vaos@ == old(self).vaos@,
            final(self).progs@ == old(self).progs@,
            final(self).next_id == old(self).next_id,
            final(self).state.spec_prog() == old(self).progs@[progh as int].id,
            final(self).state.spec_vbo() == old(self).vbos@[vboh as int].id,
            final(self).state.spec_ibo() == old(self).ibos@[iboh as int].id,
            final(self).state.spec_vao() == old(self).vaos@[vaoh as int].id,
            final(self).state.spec_ubo() == old(self).state.spec_ubo(),
            final(self).state.spec_tex_units() == tex_binds(
                old(self).progs@[progh as int].sampler2ds@,
                (old(self).state.spec_tex_units(), Seq::<GlCommand>::empty()),
            ).0,
            final(cmds)@ == old(cmds)@ + crate::gl_commands::bind_piece(
                old(self).state.spec_prog(),
                old(self).progs@[progh as int].id,
                GlCommand::UseProgram(old(self).progs@[progh as int].id),
            ) + crate::gl_commands::bind_piece(
                old(self).state.spec_vbo(),
                old(self).vbos@[vboh as int].id,
                GlCommand::BindArrayBuffer(old(self).vbos@[vboh as int].id),
            ) + crate::gl_commands::bind_piece(
                old(self).state.spec_ibo(),
                old(self).ibos@[iboh as int].id,
                GlCommand::BindElementArrayBuffer(old(self).ibos@[iboh as int].id),
            ) + crate::gl_commands::bind_piece(
                old(self).state.spec_vao(),
                old(self).vaos@[vaoh as int].id,
                GlCommand::BindVertexArray(old(self).vaos@[vaoh as int].id),
            ) + tex_binds(
                old(self).progs@[progh as int].sampler2ds@,
                (old(self).state.spec_tex_units(), Seq::<GlCommand>::empty()),
            ).1 + seq![
                GlCommand::DrawTriangles {
                    count: old(self).ibos@[iboh as int].count,
                    index_type: old(self).ibos@[iboh as int].itype,
                },
            ],
    {
        let progid = self.progs[progh].id;
        match self.state.set_program(progid) {
            Some(cmd) => cmds.push(cmd),
            None => (),
        }
        let vboid = self.vbos[vboh].id;
        match self.state.set_vbo(vboid) {
            Some(cmd) => cmds.push(cmd),
            None => (),
        }
        let iboid = self.ibos[iboh].id;
        match self.state.set_ibo(iboid) {
            Some(cmd) => cmds.push(cmd),
            None => (),
        }
        let vaoid = self.vaos[vaoh].id;
        match self.state.set_vao(vaoid) {
            Some(cmd) => cmds.push(cmd),
            None => (),
        }
        let ghost base = cmds@;
        proof {
            assert(base =~= old(cmds)@ + crate::gl_commands::bind_piece(
                old(self).state.spec_prog(),
                old(self).progs@[progh as int].id,
                GlCommand::UseProgram(old(self).progs@[progh as int].id),
            ) + crate::gl_commands::bind_piece(
                old(self).state.spec_vbo(),
                old(self).vbos@[vboh as int].id,
                GlCommand::BindArrayBuffer(old(self).vbos@[vboh as int].id),
            ) + crate::gl_commands::bind_piece(
                old(self).state.spec_ibo(),
                old(self).ibos@[iboh as int].id,
                GlCommand::BindElementArrayBuffer(old(self).ibos@[iboh as int].id),
            ) + crate::gl_commands::bind_piece(
                old(self).state.spec_vao(),
                old(self).vaos@[vaoh as int].id,
                GlCommand::BindVertexArray(old(self).vaos@[vaoh as int].id),
            ));
        }
        let ghost units0 = self.state.spec_tex_units();
        let ghost samplers0 = self.progs@[progh as int].sampler2ds@;
        let sampler_count = self.progs[progh].sampler2ds.len();
        let mut k: usize = 0;
        while k < sampler_count
            invariant
                progh < self.progs@.len(),
                self.progs@ == old(self).progs@,
                samplers0 == self.progs@[progh as int].sampler2ds@,
                sampler_count == samplers0.len(),
                k <= samplers0.len(),
                self.state.spec_prog() == old(self).progs@[progh as int].id,
                self.state.spec_vbo() == old(self).vbos@[vboh as int].id,
                self.state.spec_ibo() == old(self).ibos@[iboh as int].id,
                self.state.spec_vao() == old(self).vaos@[vaoh as int].id,
                self.state.spec_ubo() == old(self).state.spec_ubo(),
                self.vbos@ == old(self).vbos@,
                self.ibos@ == old(self).ibos@,
                self.vaos@ == old(self).vaos@,
                self.next_id == old(self).next_id,
                tex_binds(samplers0.subrange(0, k as int), (units0, Seq::<GlCommand>::empty()))
                    == (self.state.spec_tex_units(), cmds@.skip(base.len() as int)),
                cmds@.subrange(0, base.len() as int) == base,
                cmds@.len() >= base.len(),
            decreases samplers0.len() - k,
        {
            proof {
                lemma_tex_binds_push(
                    samplers0.subrange(0, k as int),
                    samplers0[k as int],
                    (units0, Seq::<GlCommand>::empty()),
                );
                assert(samplers0.subrange(0, k + 1) =~= samplers0.subrange(0, k as int).push(
                    samplers0[k as int],
                ));
            }
            let unit = self.progs[progh].sampler2ds[k].tex_unit;
            let tex = self.progs[progh].sampler2ds[k].tex_id;
            match self.state.set_tex2d(unit, tex) {
                Some(cmd) => cmds.push(cmd),
                None => (),
            }
            proof {
                assert(cmds@.subrange(0, base.len() as int) =~= base);
                assert(cmds@.skip(base.len() as int) =~= tex_binds(
                    samplers0.subrange(0, k + 1),
                    (units0, Seq::<GlCommand>::empty()),
                ).1);
            }
            k = k + 1;
        }
        proof {
            assert(samplers0.subrange(0, samplers0.len() as int) =~= samplers0);
        }
        let count = self.ibos[iboh].count;
        let itype = self.ibos[iboh].itype;
        cmds.push(GlCommand::DrawTriangles { count, index_type: itype });
        proof {
            assert(cmds@ =~= base + tex_binds(samplers0, (units0, Seq::<GlCommand>::empty())).1
                + seq![
                GlCommand::DrawTriangles {
                    count: old(self).ibos@[iboh as int].count,
                    index_type: old(self).ibos@[iboh as int].itype,
                },
            ]);
        }
    }

    /// Applies the geometry's pending parameter changes — sampler binds
    /// and affected-block uploads — then binds its objects and draws it.
    /// Fails exactly when a pending value runs past the end of its block;
    /// no draw is issued then.
    pub fn draw_geometry(
        &mut self,
        geom: &mut OpenGLGeometry,
        cmds: &mut Vec<GlCommand>,
    ) -> (result: Result<(), RenderError>)
        requires
            old(self).wf(),
            old(geom).params.wf(),
            old(geom).program < old(self).progs@.len(),
            old(geom).vbo < old(self).vbos@.len(),
            old(geom).ibo < old(self).ibos@.len(),
            old(geom).vao < old(self).vaos@.len(),
        ensures
            ({
                let ph = old(geom).program as int;
                let blocks0 = old(self).progs@[ph].uniform_blocks@;
                let samplers0 = old(self).progs@[ph].sampler2ds@;
                let groups0 = old(geom).params.spec_groups();
                let names0 = old(geom).params.spec_changes();
                let st0 = (
                    blocks0.map_values(|b: GLUniformBlock| b.buffer_data.bytes@),
                    samplers0.map_values(|sm: GLSampler2D| sm.tex_id),
                    Seq::<usize>::empty(),
                    Seq::<GlCommand>::empty(),
                    true,
                );
                let stf = apply_names(blocks0, samplers0, groups0, names0, st0);
                &&& final(self).wf()
                &&& final(geom).params.wf()
                &&& final(geom).params.spec_groups() == groups0
                &&& final(geom).params.spec_changes() == Seq::<Seq<char>>::empty()
                &&& final(geom).vbo == old(geom).vbo
                &&& final(geom).ibo == old(geom).ibo
                &&& final(geom).vao == old(geom).vao
                &&& final(geom).program == old(geom).program
                &&& final(geom).layout_desc == old(geom).layout_desc
                &&& (result is Ok <==> stf.4)
                &&& result is Err ==> result == Result::<(), RenderError>::Err(
                    RenderError::ValueOutsideBlock,
                )
                &&& final(self).vbos@ == old(self).vbos@
                &&& final(self).ibos@ == old(self).ibos@
                &&& final(self).vaos@ == old(self).vaos@
                &&& final(self).next_id == old(self).next_id
                &&& final(self).progs@.len() == old(self).progs@.len()
                &&& forall|p: int|
                    0 <= p < old(self).progs@.len() && p != ph ==> final(self).progs@[p] == old(
                        self,
                    ).progs@[p]
                &&& final(self).progs@[ph].id == old(self).progs@[ph].id
                &&& final(self).progs@[ph].uniform_blocks@.len() == blocks0.len()
                &&& forall|b: int|
                    0 <= b < blocks0.len() ==> {
                        let blk = #[trigger] final(self).progs@[ph].uniform_blocks@[b];
                        &&& blk.name == blocks0[b].name
                        &&& blk.size == blocks0[b].size
                        &&& blk.buffer == blocks0[b].buffer
                        &&& blk.uniforms@ == blocks0[b].uniforms@
                        &&& blk.buffer_data.bytes@ == stf.0[b]
                    }
                &&& final(self).progs@[ph].sampler2ds@.len() == samplers0.len()
                &&& forall|k: int|
                    0 <= k < samplers0.len() ==> {
                        let sm = #[trigger] final(self).progs@[ph].sampler2ds@[k];
                        &&& sm.uniform_info == samplers0[k].uniform_info
                        &&& sm.tex_unit == samplers0[k].tex_unit
                        &&& sm.tex_id == stf.1[k]
                    }
                &&& final(cmds)@.subrange(0, old(cmds)@.len() as int) == old(cmds)@
                &&& result is Ok ==> {
                    &&& final(cmds)@.len() > old(cmds)@.len()
                    &&& final(cmds)@.last() == GlCommand::DrawTriangles {
                        count: old(self).ibos@[old(geom).ibo as int].count,
                        index_type: old(self).ibos@[old(geom).ibo as int].itype,
                    }
                    &&& draws_of(final(cmds)@.skip(old(cmds)@.len() as int)) == seq![
                        GlCommand::DrawTriangles {
                            count: old(self).ibos@[old(geom).ibo as int].count,
                            index_type: old(self).ibos@[old(geom).ibo as int].itype,
                        },
                    ]
                    &&& final(self).state.spec_prog() == old(self).progs@[ph].id
                    &&& final(self).state.spec_vbo() == old(self).vbos@[old(geom).vbo as int].id
                    &&& final(self).state.spec_ibo() == old(self).ibos@[old(geom).ibo as int].id
                    &&& final(self).state.spec_vao() == old(self).vaos@[old(geom).vao as int].id
                }
                &&& result is Err ==> {
                    &&& final(cmds)@.len() == old(cmds)@.len() + stf.3.len()
                    &&& draws_of(final(cmds)@.skip(old(cmds)@.len() as int)) == Seq::<
                        GlCommand,
                    >::empty()
                }
                &&& clear_count(final(cmds)@.skip(old(cmds)@.len() as int)) == 0
            }),
    {
        let ghost n = old(cmds)@.len() as int;
        let ghost ph = old(geom).program as int;
        let ghost blocks0 = old(self).progs@[ph].uniform_blocks@;
        let ghost samplers0 = old(self).progs@[ph].sampler2ds@;
        let ghost groups0 = old(geom).params.spec_groups();
        let ghost names0 = old(geom).params.spec_changes();
        let ghost st0: ApplyState = (
            blocks0.map_values(|b: GLUniformBlock| b.buffer_data.bytes@),
            samplers0.map_values(|sm: GLSampler2D| sm.tex_id),
            Seq::<usize>::empty(),
            Seq::<GlCommand>::empty(),
            true,
        );
        let ghost stf = apply_names(blocks0, samplers0, groups0, names0, st0);
        let applied = self.apply_shader_params(geom, cmds);
        proof {
            assert(draws_of(st0.3) =~= Seq::<GlCommand>::empty());
            assert(clear_count(st0.3) == 0);
            lemma_apply_names_cmd_shape(blocks0, samplers0, groups0, names0, st0);
        }
        match applied {
            Ok(()) => {
                let ghost before = cmds@;
                let ghost mid_self = *self;
                proof {
                    assert(before.skip(n) =~= stf.3 + before.skip(n + stf.3.len() as int));
                    lemma_upload_cmd_shape(
                        self.progs@[ph].uniform_blocks@,
                        stf.2,
                        old(self).state.spec_ubo(),
                        before.skip(n + stf.3.len() as int),
                    );
                    lemma_cmd_shape_concat(stf.3, before.skip(n + stf.3.len() as int));
                    assert(draws_of(before.skip(n)) =~= Seq::<GlCommand>::empty());
                    assert(clear_count(before.skip(n)) == 0);
                }
                self.draw_vertex_arrays(geom.vbo, geom.vao, geom.ibo, geom.program, cmds);
                proof {
                    assert(cmds@.subrange(0, old(cmds)@.len() as int) =~= old(cmds)@);
                    let draw = GlCommand::DrawTriangles {
                        count: old(self).ibos@[old(geom).ibo as int].count,
                        index_type: old(self).ibos@[old(geom).ibo as int].itype,
                    };
                    assert(cmds@.last() == draw);
                    let piece = cmds@.skip(before.len() as int);
                    assert(cmds@.skip(n) =~= before.skip(n) + piece);
                    lemma_cmd_shape_concat(before.skip(n), piece);
                    assert(piece =~= crate::gl_commands::bind_piece(
                        mid_self.state.spec_prog(),
                        mid_self.progs@[old(geom).program as int].id,
                        GlCommand::UseProgram(mid_self.progs@[old(geom).program as int].id),
                    ) + crate::gl_commands::bind_piece(
                        mid_self.state.spec_vbo(),
                        mid_self.vbos@[old(geom).vbo as int].id,
                        GlCommand::BindArrayBuffer(mid_self.vbos@[old(geom).vbo as int].id),
                    ) + crate::gl_commands::bind_piece(
                        mid_self.state.spec_ibo(),
                        mid_self.ibos@[old(geom).ibo as int].id,
                        GlCommand::BindElementArrayBuffer(
                            mid_self.ibos@[old(geom).ibo as int].id,
                        ),
                    ) + crate::gl_commands::bind_piece(
                        mid_self.state.spec_vao(),
                        mid_self.vaos@[old(geom).vao as int].id,
                        GlCommand::BindVertexArray(mid_self.vaos@[old(geom).vao as int].id),
                    ) + tex_binds(
                        mid_self.progs@[old(geom).program as int].sampler2ds@,
                        (mid_self.state.spec_tex_units(), Seq::<GlCommand>::empty()),
                    ).1 + seq![
                        GlCommand::DrawTriangles {
                            count: mid_self.ibos@[old(geom).ibo as int].count,
                            index_type: mid_self.ibos@[old(geom).ibo as int].itype,
                        },
                    ]);
                    lemma_draw_piece_shape(
                        mid_self,
                        old(geom).vbo,
                        old(geom).vao,
                        old(geom).ibo,
                        old(geom).program,
                        piece,
                    );
                    assert(draws_of(cmds@.skip(n)) =~= seq![draw]);
                }
                Ok(())
            },
            Err(e) => {
                proof {
                    assert(cmds@.skip(n) =~= stf.3);
                }
                Err(e)
            },
        }
    }
}


/// The pixel layouts the engine can upload, as read off a decoded image.
#[derive(Clone, Copy, PartialEq, Eq, Structural, Debug)]
pub enum PixelLayout {
    Luma8,
    LumaAlpha8,
    Rgb8,
    Rgba8,
    Other,
}

/// The texture format an image's pixel layout maps to: one channel is
/// luminance, two luminance-alpha, three RGB, four RGBA. Anything else
/// cannot be uploaded.
pub open spec fn format_for_layout(layout: PixelLayout) -> Option<TextureFormat> {
    match layout {
        PixelLayout::Luma8 => Some(TextureFormat::Luminance),
        PixelLayout::LumaAlpha8 => Some(TextureFormat::LuminanceAlpha),
        PixelLayout::Rgb8 => Some(TextureFormat::RGB),
        PixelLayout::Rgba8 => Some(TextureFormat::RGBA),
        PixelLayout::Other => None,
    }
}

/// The texture format inferred from an image's channel layout, or the
/// unsupported-layout error.
pub fn format_from_layout(layout: PixelLayout) -> (result: Result<TextureFormat, RenderError>)
    ensures
        result matches Ok(f) ==> format_for_layout(layout) == Some(f),
        result is Err <==> format_for_layout(layout) is None,
        result is Err ==> result == Result::<TextureFormat, RenderError>::Err(
            RenderError::UnsupportedImageLayout,
        ),
{
    match layout {
        PixelLayout::Luma8 => Ok(TextureFormat::Luminance),
        PixelLayout::LumaAlpha8 => Ok(TextureFormat::LuminanceAlpha),
        PixelLayout::Rgb8 => Ok(TextureFormat::RGB),
        PixelLayout::Rgba8 => Ok(TextureFormat::RGBA),
        PixelLayout::Other => Err(RenderError::UnsupportedImageLayout),
    }
}

/// Relies on image::DynamicImage: the decoded images the engine accepts.
#[verifier::external_type_specification]
#[verifier::external_body]
pub struct ExDynamicImage(image::DynamicImage);

/// Relies on image::DynamicImage's variant tags: maps each eight-bit
/// variant the engine uploads to its layout, one arm per variant, and
/// everything else to `Other`.
#[verifier::external_body]
fn image_pixel_layout(image_data: &image::DynamicImage) -> (layout: PixelLayout)
{
    match image_data {
        image::DynamicImage::ImageLuma8(_) => PixelLayout::Luma8,
        image::DynamicImage::ImageLumaA8(_) => PixelLayout::LumaAlpha8,
        image::DynamicImage::ImageRgb8(_) => PixelLayout::Rgb8,
        image::DynamicImage::ImageRgba8(_) => PixelLayout::Rgba8,
        _ => PixelLayout::Other,
    }
}

/// Relies on image::GenericImageView::dimensions: the decoded image's
/// width and height.
#[verifier::external_body]
fn image_dimensions(image_data: &image::DynamicImage) -> (dims: (u32, u32))
{
    image::GenericImageView::dimensions(image_data)
}

/// Relies on image::DynamicImage::as_bytes: the image's raw pixel bytes.
#[verifier::external_body]
fn image_raw_pixels(image_data: &image::DynamicImage) -> (pixels: Vec<u8>)
{
    image_data.as_bytes().to_vec()
}

impl OpenGLRenderer {
    /// Creates a texture from a decoded image: infers the format from
    /// the image's channel layout, uploads the pixels to a fresh texture
    /// object bound to unit 0, and starts with nearest filtering. Fails
    /// exactly when the image's layout is none the engine can upload or
    /// the renderer is out of ids.
    pub fn create_texture_from_image(
        &mut self,
        image_data: &image::DynamicImage,
        cmds: &mut Vec<GlCommand>,
    ) -> (result: Result<OpenGLTexture, RenderError>)
        requires
            old(self).wf(),
        ensures
            final(self).wf(),
            final(self).vbos@ == old(self).vbos@,
            final(self).ibos@ == old(self).ibos@,
            final(self).vaos@ == old(self).vaos@,
            final(self).progs@ == old(self).progs@,
            result matches Ok(t) ==> {
                &&& format_for_layout(t.spec_pixel_layout()) == Some(t.spec_format())
                &&& t.spec_filtering() == FilteringMethod::Nearest
                &&& !t.spec_filter_changed()
                &&& t.spec_handle() == old(self).next_id
                &&& final(self).next_id == old(self).next_id + 1
                &&& ({
                    let n = old(cmds)@.len() as int;
                    let bind_skipped = old(self).state.spec_tex_units().contains_key(0u32) && old(
                        self,
                    ).state.spec_tex_units()[0u32] == old(self).next_id;
                    &&& final(cmds)@.subrange(0, n) == old(cmds)@
                    &&& final(cmds)@[n] == GlCommand::CreateTexture(old(self).next_id)
                    &&& (bind_skipped ==> {
                        &&& final(cmds)@.len() == n + 3
                        &&& final(cmds)@[n + 1] matches GlCommand::TexImage2D { format, .. }
                            && format == t.spec_format()
                        &&& final(cmds)@[n + 2] == GlCommand::TexParameterNearest
                    })
                    &&& (!bind_skipped ==> {
                        &&& final(cmds)@.len() == n + 4
                        &&& final(cmds)@[n + 1] == GlCommand::BindTexture {
                            unit: 0u32,
                            texture: old(self).next_id,
                        }
                        &&& final(cmds)@[n + 2] matches GlCommand::TexImage2D { format, .. }
                            && format == t.spec_format()
                        &&& final(cmds)@[n + 3] == GlCommand::TexParameterNearest
                    })
                })
                &&& final(self).state.spec_tex_units() == old(self).state.spec_tex_units().insert(
                    0u32,
                    old(self).next_id,
                )
            },
            result matches Err(e) ==> {
                &&& (e == RenderError::UnsupportedImageLayout || e == RenderError::TooManyObjects)
                &&& (e == RenderError::TooManyObjects ==> old(self).next_id == u32::MAX)
                &&& final(self).next_id == old(self).next_id
                &&& final(self).state.spec_tex_units() == old(self).state.spec_tex_units()
                &&& final(cmds)@ == old(cmds)@
            },
            final(self).state.spec_prog() == old(self).state.spec_prog(),
            final(self).state.spec_vao() == old(self).state.spec_vao(),
            final(self).state.spec_vbo() == old(self).state.spec_vbo(),
            final(self).state.spec_ibo() == old(self).state.spec_ibo(),
    {
        let layout = image_pixel_layout(image_data);
        let tex_format = match format_from_layout(layout) {
            Ok(f) => f,
            Err(e) => {
                return Err(e);
            },
        };
        if self.next_id == u32::MAX {
            return Err(RenderError::TooManyObjects);
        }
        let tex_id = self.next_id;
        self.next_id = self.next_id + 1;
        cmds.push(GlCommand::CreateTexture(tex_id));
        match self.state.set_tex2d(0, tex_id) {
            Some(cmd) => cmds.push(cmd),
            None => (),
        }
        let (width, height) = image_dimensions(image_data);
        let raw_pixels = image_raw_pixels(image_data);
        cmds.push(GlCommand::TexImage2D { format: tex_format, width, height, pixels: raw_pixels });
        cmds.push(GlCommand::TexParameterNearest);
        Ok(OpenGLTexture::with_layout(tex_id, tex_format, layout))
    }
}


impl OpenGLRenderer {
    /// Creates geometry in the fixed order the driver requires: vertex
    /// buffer, program (whose uniform blocks get fresh buffers), vertex
    /// array bound by attribute name against that program, index buffer,
    /// and finally the parameter schema derived from the program's
    /// reflection. Fails, before creating anything, when the reflection
    /// is invalid or ids would run out; fails after creation only when
    /// two parameters would share a name.
    pub fn create_geometry(
        &mut self,
        vertex_data: &BufferData,
        index_data: &BufferData,
        layout: &VertexLayoutDescription,
        index_type: IndexType,
        vert_src: &str,
        frag_src: &str,
        reflection: &ProgramReflection,
        cmds: &mut Vec<GlCommand>,
    ) -> (result: Result<OpenGLGeometry, RenderError>)
        requires
            old(self).wf(),
            layout.wf(),
            layout.spec_stride() <= usize::MAX,
            layout.elements@.len() <= u32::MAX,
        ensures
            final(self).wf(),
            final(self).vbos@.len() >= old(self).vbos@.len(),
            final(self).vbos@.subrange(0, old(self).vbos@.len() as int) == old(self).vbos@,
            final(self).ibos@.len() >= old(self).ibos@.len(),
            final(self).ibos@.subrange(0, old(self).ibos@.len() as int) == old(self).ibos@,
            final(self).vaos@.len() >= old(self).vaos@.len(),
            final(self).vaos@.subrange(0, old(self).vaos@.len() as int) == old(self).vaos@,
            final(self).progs@.len() >= old(self).progs@.len(),
            final(self).progs@.subrange(0, old(self).progs@.len() as int) == old(self).progs@,
            final(cmds)@.subrange(0, old(cmds)@.len() as int) == old(cmds)@,
            result matches Err(e) ==> e == RenderError::UnsupportedUniformType || e
                == RenderError::UniformOutsideBlock || e == RenderError::TooManyObjects || e
                == RenderError::DuplicateParameterName,
            result is Ok <==> reflection_blocks_valid(*reflection) && reflection.blocks@.len()
                <= u32::MAX && old(self).next_id + 4 + reflection.blocks@.len() <= u32::MAX
                && reflection.uniforms@.len() <= u32::MAX && reflection_names_distinct(
                *reflection,
            ),
            !reflection_blocks_valid(*reflection) ==> result is Err,
            result matches Err(e) && (e == RenderError::UnsupportedUniformType || e
                == RenderError::UniformOutsideBlock || e == RenderError::TooManyObjects) ==> {
                &&& final(self).vbos@ == old(self).vbos@
                &&& final(self).ibos@ == old(self).ibos@
                &&& final(self).vaos@ == old(self).vaos@
                &&& final(self).progs@ == old(self).progs@
                &&& final(self).next_id == old(self).next_id
                &&& final(cmds)@ == old(cmds)@
            },
            result matches Ok(g) ==> {
                let nid = old(self).next_id as int;
                let blocks = reflection.blocks@.len() as int;
                let elems = layout.elements@.len() as int;
                let n = old(cmds)@.len() as int;
                let pid = (nid + 1) as u32;
                &&& g.vbo == old(self).vbos@.len() && final(self).vbos@.len() == old(
                    self,
                ).vbos@.len() + 1
                &&& g.ibo == old(self).ibos@.len() && final(self).ibos@.len() == old(
                    self,
                ).ibos@.len() + 1
                &&& g.vao == old(self).vaos@.len() && final(self).vaos@.len() == old(
                    self,
                ).vaos@.len() + 1
                &&& g.program == old(self).progs@.len() && final(self).progs@.len() == old(
                    self,
                ).progs@.len() + 1
                &&& final(self).vbos@[g.vbo as int].id == nid
                &&& final(self).ibos@[g.ibo as int].id == nid + 3 + blocks
                &&& final(self).ibos@[g.ibo as int].itype == index_type
                &&& final(self).ibos@[g.ibo as int].count == index_data.bytes@.len() / (
                if index_type is U32 {
                    4nat
                } else {
                    2nat
                })
                &&& final(self).vaos@[g.vao as int].id == nid + 2 + blocks
                &&& final(self).progs@[g.program as int].id == pid
                &&& final(self).progs@[g.program as int].uniform_blocks@.len()
                    == reflection.blocks@.len()
                &&& forall|i: int|
                    0 <= i < reflection.blocks@.len() ==> {
                        let blk = #[trigger] final(self).progs@[g.program
                            as int].uniform_blocks@[i];
                        &&& blk.name == reflection.blocks@[i].name
                        &&& blk.size == reflection.blocks@[i].size
                        &&& blk.buffer == nid + 2 + i
                        &&& blk.uniforms@ == reflection.blocks@[i].uniforms@
                        &&& blk.buffer_data.bytes@.len() == reflection.blocks@[i].size
                        &&& forall|b: int|
                            0 <= b < blk.buffer_data.bytes@.len() ==> blk.buffer_data.bytes@[b]
                                == 0u8
                    }
                &&& final(self).progs@[g.program as int].sampler2ds@.len() == samplers_of(
                    reflection.uniforms@,
                ).len()
                &&& forall|k: int|
                    0 <= k < final(self).progs@[g.program as int].sampler2ds@.len() ==> {
                        let sm = #[trigger] final(self).progs@[g.program as int].sampler2ds@[k];
                        &&& sm.uniform_info == samplers_of(reflection.uniforms@)[k]
                        &&& sm.tex_unit == k
                        &&& sm.tex_id == 0
                    }
                &&& g.layout_desc.elements@ == layout.elements@
                &&& g.layout_desc.wf()
                &&& g.params.wf()
                &&& g.params.spec_changes() == Seq::<Seq<char>>::empty()
                &&& schema_matches(
                    final(self).progs@[g.program as int].uniform_blocks@,
                    final(self).progs@[g.program as int].sampler2ds@,
                    g.params.spec_groups(),
                )
                &&& final(self).next_id == nid + 4 + blocks
                &&& final(cmds)@.len() == n + 10 + 5 * blocks + 3 * elems
                &&& final(cmds)@[n] == GlCommand::CreateBuffer(nid as u32)
                &&& final(cmds)@[n + 1] == GlCommand::BindArrayBuffer(nid as u32)
                &&& final(cmds)@[n + 2] matches GlCommand::ArrayBufferData { bytes } && bytes@
                    == vertex_data.bytes@
                &&& final(cmds)@[n + 3] matches GlCommand::LinkProgram {
                    program,
                    vertex_source,
                    fragment_source,
                } && program == pid && vertex_source@ == vert_src@ && fragment_source@
                    == frag_src@
                &&& final(cmds)@.subrange(n + 4, n + 4 + 5 * blocks) == block_setup_cmds(
                    reflection.blocks@,
                    pid,
                    (nid + 2) as u32,
                )
                &&& final(cmds)@[n + 4 + 5 * blocks] == GlCommand::CreateVertexArray(
                    (nid + 2 + blocks) as u32,
                )
                &&& final(cmds)@[n + 5 + 5 * blocks] == GlCommand::BindVertexArray(
                    (nid + 2 + blocks) as u32,
                )
                &&& final(cmds)@[n + 6 + 5 * blocks] == GlCommand::UseProgram(pid)
                &&& final(cmds)@.subrange(n + 7 + 5 * blocks, n + 7 + 5 * blocks + 3 * elems)
                    == attrib_cmds(layout.elements@, pid, layout.spec_stride() as usize)
                &&& final(cmds)@[n + 7 + 5 * blocks + 3 * elems] == GlCommand::CreateBuffer(
                    (nid + 3 + blocks) as u32,
                )
                &&& final(cmds)@[n + 8 + 5 * blocks + 3 * elems]
                    == GlCommand::BindElementArrayBuffer((nid + 3 + blocks) as u32)
                &&& final(cmds)@[n + 9 + 5 * blocks + 3 * elems] matches GlCommand::ElementArrayBufferData {
                    bytes,
                } && bytes@ == index_data.bytes@
            },
    {
        match OpenGLRenderer::validate_reflection(reflection) {
            Ok(()) => (),
            Err(e) => {
                return Err(e);
            },
        }
        if reflection.blocks.len() as u64 > u32::MAX as u64 || self.next_id as u64 + 4u64
            + reflection.blocks.len() as u64 > u32::MAX as u64 {
            return Err(RenderError::TooManyObjects);
        }
        if reflection.uniforms.len() as u64 > u32::MAX as u64 {
            return Err(RenderError::TooManyObjects);
        }
        let ghost c0 = cmds@;
        let vbo = self.create_vertex_buffer_object(vertex_data, cmds);
        let ghost c1 = cmds@;
        let prog = self.create_program(vert_src, frag_src, reflection, cmds);
        let ghost c2 = cmds@;
        let vao = self.create_vertex_array_object(layout, vbo, prog, cmds);
        let ghost c3 = cmds@;
        let ibo = self.create_index_buffer_object(index_type, index_data, cmds);
        let ghost c4 = cmds@;
        proof {
            let n = c0.len() as int;
            let nid = old(self).next_id as int;
            let blocks = reflection.blocks@.len() as int;
            let elems = layout.elements@.len() as int;
            let pid = (nid + 1) as u32;
            assert(c1.len() == n + 3);
            assert(c2.len() == n + 4 + 5 * blocks);
            assert(crate::gl_commands::bind_piece(
                nid as u32,
                nid as u32,
                GlCommand::BindArrayBuffer(nid as u32),
            ) =~= Seq::<GlCommand>::empty());
            assert(crate::gl_commands::bind_piece(
                old(self).state.spec_prog(),
                pid,
                GlCommand::UseProgram(pid),
            ) =~= seq![GlCommand::UseProgram(pid)]);
            assert(c3 =~= c2 + seq![
                GlCommand::CreateVertexArray((nid + 2 + blocks) as u32),
                GlCommand::BindVertexArray((nid + 2 + blocks) as u32),
                GlCommand::UseProgram(pid),
            ] + attrib_cmds(layout.elements@, pid, layout.spec_stride() as usize));
            lemma_attrib_cmds_len(layout.elements@, pid, layout.spec_stride() as usize);
            assert(c3.len() == n + 7 + 5 * blocks + 3 * elems);
            assert(c4.len() == n + 10 + 5 * blocks + 3 * elems);
            assert(c4.subrange(0, c3.len() as int) =~= c3);
            assert forall|x: int| 0 <= x < c3.len() implies c4[x] == c3[x] by {
                assert(c4.subrange(0, c3.len() as int)[x] == c4[x]);
            }
            assert(c2.subrange(0, c1.len() as int) =~= c1);
            assert forall|x: int| 0 <= x < c1.len() implies c2[x] == c1[x] by {
                assert(c2.subrange(0, c1.len() as int)[x] == c2[x]);
            }
            assert(c4.subrange(n + 4, n + 4 + 5 * blocks) =~= c2.subrange(n + 4, n + 4 + 5
                * blocks));
            assert(c4.subrange(n + 4, n + 4 + 5 * blocks) =~= block_setup_cmds(
                reflection.blocks@,
                pid,
                (nid + 2) as u32,
            ));
            assert(c4.subrange(n + 7 + 5 * blocks, n + 7 + 5 * blocks + 3 * elems)
                =~= attrib_cmds(layout.elements@, pid, layout.spec_stride() as usize));
            assert(c4.subrange(0, n) =~= c0);
        }
        let params = {
            let prog_rec = &self.progs[prog];
            self.get_shader_params(&prog_rec.uniform_blocks, &prog_rec.sampler2ds)
        };
        proof {
            assert forall|bb: int, uu: int|
                0 <= bb < self.progs@[prog as int].uniform_blocks@.len() && 0 <= uu
                    < self.progs@[prog as int].uniform_blocks@[bb].uniforms@.len() implies kind_supported(
                (#[trigger] self.progs@[prog as int].uniform_blocks@[bb].uniforms@[uu]).kind,
            ) by {
                assert(self.progs@[prog as int].uniform_blocks@[bb].uniforms@
                    == reflection.blocks@[bb].uniforms@);
                assert(kind_supported(reflection.blocks@[bb].uniforms@[uu].kind));
            }
            lemma_records_distinct_matches_reflection(
                *reflection,
                self.progs@[prog as int].uniform_blocks@,
                self.progs@[prog as int].sampler2ds@,
            );
        }
        let params = match params {
            Ok(p) => p,
            Err(e) => {
                proof {
                    assert(final(self).vbos@.subrange(0, old(self).vbos@.len() as int) =~= old(
                        self,
                    ).vbos@);
                    assert(final(self).ibos@.subrange(0, old(self).ibos@.len() as int) =~= old(
                        self,
                    ).ibos@);
                    assert(final(self).vaos@.subrange(0, old(self).vaos@.len() as int) =~= old(
                        self,
                    ).vaos@);
                    assert(final(self).progs@.subrange(0, old(self).progs@.len() as int) =~= old(
                        self,
                    ).progs@);
                    assert(final(cmds)@.subrange(0, old(cmds)@.len() as int) =~= old(cmds)@);
                }
                return Err(e);
            },
        };
        let layout_desc = clone_layout(layout);
        let geom = OpenGLGeometry { vbo, ibo, vao, program: prog, layout_desc, params };
        proof {
            vstd::std_specs::vec::axiom_spec_len(&index_data.bytes);
            assert(index_data.bytes@.len() / 4nat <= index_data.bytes@.len()) by (nonlinear_arith);
            assert(index_data.bytes@.len() / 2nat <= index_data.bytes@.len()) by (nonlinear_arith);
        }
        proof {
            assert(self.vbos@.subrange(0, old(self).vbos@.len() as int) =~= old(self).vbos@);
            assert(self.ibos@.subrange(0, old(self).ibos@.len() as int) =~= old(self).ibos@);
            assert(self.vaos@.subrange(0, old(self).vaos@.len() as int) =~= old(self).vaos@);
            assert(self.progs@.subrange(0, old(self).progs@.len() as int) =~= old(self).progs@);
            assert(cmds@.subrange(0, old(cmds)@.len() as int) =~= old(cmds)@);
        }
        Ok(geom)
    }
}


/// The draw commands of a stream, in order.
pub open spec fn draws_of(cmds: Seq<GlCommand>) -> Seq<GlCommand>
    decreases cmds.len(),
{
    if cmds.len() == 0 {
        Seq::empty()
    } else {
        (if cmds[0] matches GlCommand::DrawTriangles { .. } {
            seq![cmds[0]]
        } else {
            Seq::empty()
        }) + draws_of(cmds.skip(1))
    }
}

/// How many clear commands a stream holds.
pub open spec fn clear_count(cmds: Seq<GlCommand>) -> int
    decreases cmds.len(),
{
    if cmds.len() == 0 {
        0
    } else {
        (if cmds[0] matches GlCommand::Clear { .. } {
            1int
        } else {
            0int
        }) + clear_count(cmds.skip(1))
    }
}

/// Both classifications distribute over concatenation.
pub proof fn lemma_cmd_shape_concat(a: Seq<GlCommand>, b: Seq<GlCommand>)
    ensures
        draws_of(a + b) == draws_of(a) + draws_of(b),
        clear_count(a + b) == clear_count(a) + clear_count(b),
    decreases a.len(),
{
    if a.len() == 0 {
        assert(a + b =~= b);
        assert(draws_of(a) + draws_of(b) =~= draws_of(b));
    } else {
        assert((a + b)[0] == a[0]);
        assert((a + b).skip(1) =~= a.skip(1) + b);
        lemma_cmd_shape_concat(a.skip(1), b);
        if a[0] matches GlCommand::DrawTriangles { .. } {
            assert(draws_of(a) + draws_of(b) =~= seq![a[0]] + (draws_of(a.skip(1)) + draws_of(
                b,
            )));
        } else {
            assert(draws_of(a) + draws_of(b) =~= draws_of(a.skip(1)) + draws_of(b));
        }
    }
}

/// A one-command stream classifies by that command alone.
pub proof fn lemma_cmd_shape_single(c: GlCommand)
    ensures
        draws_of(seq![c]) == (if c matches GlCommand::DrawTriangles { .. } {
            seq![c]
        } else {
            Seq::<GlCommand>::empty()
        }),
        clear_count(seq![c]) == (if c matches GlCommand::Clear { .. } {
            1int
        } else {
            0int
        }),
{
    assert(seq![c].skip(1) =~= Seq::<GlCommand>::empty());
    assert(draws_of(Seq::<GlCommand>::empty()) == Seq::<GlCommand>::empty());
    assert(clear_count(Seq::<GlCommand>::empty()) == 0);
    if c matches GlCommand::DrawTriangles { .. } {
        assert(draws_of(seq![c]) =~= seq![c]);
    } else {
        assert(draws_of(seq![c]) =~= Seq::<GlCommand>::empty());
    }
}

/// The dirty-name fold emits only sampler-unit commands: no draws, no
/// clears.
proof fn lemma_apply_names_cmd_shape(
    blocks: Seq<GLUniformBlock>,
    samplers: Seq<GLSampler2D>,
    groups: Seq<ParamGroup>,
    names: Seq<Seq<char>>,
    st: ApplyState,
)
    requires
        draws_of(st.3) == Seq::<GlCommand>::empty(),
        clear_count(st.3) == 0,
    ensures
        draws_of(apply_names(blocks, samplers, groups, names, st).3) == Seq::<GlCommand>::empty(),
        clear_count(apply_names(blocks, samplers, groups, names, st).3) == 0,
    decreases names.len(),
{
    if names.len() > 0 {
        let st1 = apply_step(blocks, samplers, groups, names[0], st);
        assert(draws_of(st1.3) == Seq::<GlCommand>::empty() && clear_count(st1.3) == 0) by {
            if st.4 {
                let v = param_value_of(groups, names[0]);
                match v {
                    ParamValue::Texture2D(h) => match find_sampler_from(samplers, names[0], 0) {
                        Some(sx) => {
                            let cmd = GlCommand::Uniform1i {
                                location: samplers[sx].uniform_info.index,
                                value: samplers[sx].tex_unit as i32,
                            };
                            assert(st.3.push(cmd) =~= st.3 + seq![cmd]);
                            lemma_cmd_shape_concat(st.3, seq![cmd]);
                            lemma_cmd_shape_single(cmd);
                            assert(draws_of(st.3 + seq![cmd]) =~= Seq::<GlCommand>::empty());
                        },
                        None => {},
                    },
                    _ => {},
                }
            }
        }
        lemma_apply_names_cmd_shape(blocks, samplers, groups, names.skip(1), st1);
    }
}

/// The upload tail holds only binds and buffer uploads: no draws, no
/// clears.
proof fn lemma_upload_cmd_shape(
    blocks: Seq<GLUniformBlock>,
    affected: Seq<usize>,
    entry_ubo: u32,
    cmds: Seq<GlCommand>,
)
    requires
        upload_cmds_ok(blocks, affected, entry_ubo, cmds),
    ensures
        draws_of(cmds) == Seq::<GlCommand>::empty(),
        clear_count(cmds) == 0,
    decreases affected.len(),
{
    assert(draws_of(Seq::<GlCommand>::empty()) == Seq::<GlCommand>::empty());
    assert(clear_count(Seq::<GlCommand>::empty()) == 0);
    if affected.len() == 0 {
        assert(cmds =~= Seq::<GlCommand>::empty());
        assert(draws_of(cmds) =~= Seq::<GlCommand>::empty());
        assert(clear_count(cmds) == 0);
    } else {
        let b = affected[0] as int;
        let buf = blocks[b].buffer;
        if entry_ubo == buf {
            lemma_upload_cmd_shape(blocks, affected.skip(1), buf, cmds.skip(1));
            assert(draws_of(cmds) =~= Seq::<GlCommand>::empty());
            assert(clear_count(cmds) == 0);
        } else {
            lemma_upload_cmd_shape(blocks, affected.skip(1), buf, cmds.skip(2));
            assert(cmds.skip(1)[0] == cmds[1]);
            assert(cmds.skip(1).skip(1) =~= cmds.skip(2));
            assert(draws_of(cmds.skip(1)) =~= Seq::<GlCommand>::empty());
            assert(clear_count(cmds.skip(1)) == 0);
            assert(draws_of(cmds) =~= Seq::<GlCommand>::empty());
            assert(clear_count(cmds) == 0);
        }
    }
}

/// The sampler-bind fold emits only texture binds: no draws, no clears.
proof fn lemma_tex_binds_cmd_shape(samplers: Seq<GLSampler2D>, st: (Map<u32, u32>, Seq<GlCommand>))
    requires
        draws_of(st.1) == Seq::<GlCommand>::empty(),
        clear_count(st.1) == 0,
    ensures
        draws_of(tex_binds(samplers, st).1) == Seq::<GlCommand>::empty(),
        clear_count(tex_binds(samplers, st).1) == 0,
    decreases samplers.len(),
{
    if samplers.len() > 0 {
        let st1 = tex_bind_step(samplers[0], st);
        assert(draws_of(st1.1) == Seq::<GlCommand>::empty() && clear_count(st1.1) == 0) by {
            let sm = samplers[0];
            let already = st.0.contains_key(sm.tex_unit) && st.0[sm.tex_unit] == sm.tex_id;
            if !already {
                let cmd = GlCommand::BindTexture { unit: sm.tex_unit, texture: sm.tex_id };
                assert(st.1.push(cmd) =~= st.1 + seq![cmd]);
                lemma_cmd_shape_concat(st.1, seq![cmd]);
                lemma_cmd_shape_single(cmd);
                assert(draws_of(st.1 + seq![cmd]) =~= Seq::<GlCommand>::empty());
            }
        }
        lemma_tex_binds_cmd_shape(samplers.skip(1), st1);
    }
}


/// The piece `draw_vertex_arrays` appends — binds, texture binds and the
/// one draw — holds exactly one draw command and no clear.
proof fn lemma_draw_piece_shape(
    pre: OpenGLRenderer,
    vboh: usize,
    vaoh: usize,
    iboh: usize,
    progh: usize,
    piece: Seq<GlCommand>,
)
    requires
        vboh < pre.vbos@.len(),
        vaoh < pre.vaos@.len(),
        iboh < pre.ibos@.len(),
        progh < pre.progs@.len(),
        piece == crate::gl_commands::bind_piece(
            pre.state.spec_prog(),
            pre.progs@[progh as int].id,
            GlCommand::UseProgram(pre.progs@[progh as int].id),
        ) + crate::gl_commands::bind_piece(
            pre.state.spec_vbo(),
            pre.vbos@[vboh as int].id,
            GlCommand::BindArrayBuffer(pre.vbos@[vboh as int].id),
        ) + crate::gl_commands::bind_piece(
            pre.state.spec_ibo(),
            pre.ibos@[iboh as int].id,
            GlCommand::BindElementArrayBuffer(pre.ibos@[iboh as int].id),
        ) + crate::gl_commands::bind_piece(
            pre.state.spec_vao(),
            pre.vaos@[vaoh as int].id,
            GlCommand::BindVertexArray(pre.vaos@[vaoh as int].id),
        ) + tex_binds(
            pre.progs@[progh as int].sampler2ds@,
            (pre.state.spec_tex_units(), Seq::<GlCommand>::empty()),
        ).1 + seq![
            GlCommand::DrawTriangles {
                count: pre.ibos@[iboh as int].count,
                index_type: pre.ibos@[iboh as int].itype,
            },
        ],
    ensures
        draws_of(piece) == seq![
            GlCommand::DrawTriangles {
                count: pre.ibos@[iboh as int].count,
                index_type: pre.ibos@[iboh as int].itype,
            },
        ],
        clear_count(piece) == 0,
{
    let bp1 = crate::gl_commands::bind_piece(
        pre.state.spec_prog(),
        pre.progs@[progh as int].id,
        GlCommand::UseProgram(pre.progs@[progh as int].id),
    );
    let bp2 = crate::gl_commands::bind_piece(
        pre.state.spec_vbo(),
        pre.vbos@[vboh as int].id,
        GlCommand::BindArrayBuffer(pre.vbos@[vboh as int].id),
    );
    let bp3 = crate::gl_commands::bind_piece(
        pre.state.spec_ibo(),
        pre.ibos@[iboh as int].id,
        GlCommand::BindElementArrayBuffer(pre.ibos@[iboh as int].id),
    );
    let bp4 = crate::gl_commands::bind_piece(
        pre.state.spec_vao(),
        pre.vaos@[vaoh as int].id,
        GlCommand::BindVertexArray(pre.vaos@[vaoh as int].id),
    );
    let tex = tex_binds(
        pre.progs@[progh as int].sampler2ds@,
        (pre.state.spec_tex_units(), Seq::<GlCommand>::empty()),
    ).1;
    let draw = GlCommand::DrawTriangles {
        count: pre.ibos@[iboh as int].count,
        index_type: pre.ibos@[iboh as int].itype,
    };
    assert(draws_of(Seq::<GlCommand>::empty()) == Seq::<GlCommand>::empty());
    assert(clear_count(Seq::<GlCommand>::empty()) == 0);
    lemma_cmd_shape_single(GlCommand::UseProgram(pre.progs@[progh as int].id));
    lemma_cmd_shape_single(GlCommand::BindArrayBuffer(pre.vbos@[vboh as int].id));
    lemma_cmd_shape_single(GlCommand::BindElementArrayBuffer(pre.ibos@[iboh as int].id));
    lemma_cmd_shape_single(GlCommand::BindVertexArray(pre.vaos@[vaoh as int].id));
    lemma_cmd_shape_single(draw);
    lemma_tex_binds_cmd_shape(
        pre.progs@[progh as int].sampler2ds@,
        (pre.state.spec_tex_units(), Seq::<GlCommand>::empty()),
    );
    lemma_cmd_shape_concat(bp1, bp2);
    lemma_cmd_shape_concat(bp1 + bp2, bp3);
    lemma_cmd_shape_concat(bp1 + bp2 + bp3, bp4);
    lemma_cmd_shape_concat(bp1 + bp2 + bp3 + bp4, tex);
    lemma_cmd_shape_concat(bp1 + bp2 + bp3 + bp4 + tex, seq![draw]);
    assert(draws_of(piece) =~= seq![draw]);
}


/// The built program records carry exactly the reflection's names, so
/// their schema names are distinct exactly when the reflection's are.
proof fn lemma_records_distinct_matches_reflection(
    reflection: ProgramReflection,
    blocks: Seq<GLUniformBlock>,
    samplers: Seq<GLSampler2D>,
)
    requires
        blocks.len() == reflection.blocks@.len(),
        forall|b: int|
            0 <= b < blocks.len() ==> (#[trigger] blocks[b]).uniforms@
                == reflection.blocks@[b].uniforms@,
        samplers.len() == samplers_of(reflection.uniforms@).len(),
        forall|k: int|
            0 <= k < samplers.len() ==> (#[trigger] samplers[k]).uniform_info == samplers_of(
                reflection.uniforms@,
            )[k],
    ensures
        schema_distinct(blocks, samplers) <==> reflection_names_distinct(reflection),
{
    if schema_distinct(blocks, samplers) {
        assert forall|bi: int, ui: int, bj: int, uj: int|
            0 <= bi < reflection.blocks@.len() && 0 <= ui < reflection.blocks@[bi].uniforms@.len()
                && 0 <= bj < reflection.blocks@.len() && 0 <= uj
                < reflection.blocks@[bj].uniforms@.len() && (bi != bj || ui != uj) implies (
        #[trigger] reflection.blocks@[bi].uniforms@[ui].name@) != (
        #[trigger] reflection.blocks@[bj].uniforms@[uj].name@) by {
            assert(blocks[bi].uniforms@[ui].name@ != blocks[bj].uniforms@[uj].name@);
        }
        assert forall|bi: int, ui: int, sx: int|
            0 <= bi < reflection.blocks@.len() && 0 <= ui < reflection.blocks@[bi].uniforms@.len()
                && 0 <= sx < samplers_of(reflection.uniforms@).len() implies (
        #[trigger] reflection.blocks@[bi].uniforms@[ui].name@) != (
        #[trigger] samplers_of(reflection.uniforms@)[sx].name@) by {
            assert(blocks[bi].uniforms@[ui].name@ != samplers[sx].uniform_info.name@);
        }
        assert forall|s1: int, s2: int|
            0 <= s1 < samplers_of(reflection.uniforms@).len() && 0 <= s2 < samplers_of(
                reflection.uniforms@,
            ).len() && s1 != s2 implies (#[trigger] samplers_of(reflection.uniforms@)[s1].name@)
            != (#[trigger] samplers_of(reflection.uniforms@)[s2].name@) by {
            assert(samplers[s1].uniform_info.name@ != samplers[s2].uniform_info.name@);
        }
    }
    if reflection_names_distinct(reflection) {
        assert forall|bi: int, ui: int, bj: int, uj: int|
            0 <= bi < blocks.len() && 0 <= ui < blocks[bi].uniforms@.len() && 0 <= bj
                < blocks.len() && 0 <= uj < blocks[bj].uniforms@.len() && (bi != bj || ui != uj)
                implies (#[trigger] blocks[bi].uniforms@[ui].name@) != (
        #[trigger] blocks[bj].uniforms@[uj].name@) by {
            assert(reflection.blocks@[bi].uniforms@[ui].name@
                != reflection.blocks@[bj].uniforms@[uj].name@);
        }
        assert forall|bi: int, ui: int, sx: int|
            0 <= bi < blocks.len() && 0 <= ui < blocks[bi].uniforms@.len() && 0 <= sx
                < samplers.len() implies (#[trigger] blocks[bi].uniforms@[ui].name@) != (
        #[trigger] samplers[sx].uniform_info.name@) by {
            assert(reflection.blocks@[bi].uniforms@[ui].name@ != samplers_of(
                reflection.uniforms@,
            )[sx].name@);
        }
        assert forall|s1: int, s2: int|
            0 <= s1 < samplers.len() && 0 <= s2 < samplers.len() && s1 != s2 implies (
        #[trigger] samplers[s1].uniform_info.name@) != (
        #[trigger] samplers[s2].uniform_info.name@) by {
            assert(samplers_of(reflection.uniforms@)[s1].name@ != samplers_of(
                reflection.uniforms@,
            )[s2].name@);
        }
    }
}


/// Whether the first block member named `name` has room for one matrix
/// value (64 bytes) at its reflected offset; a name with no block member
/// costs nothing.
pub open spec fn mat4_write_fits(blocks: Seq<GLUniformBlock>, name: Seq<char>) -> bool {
    match find_block_from(blocks, name, 0) {
        Some((b, j)) => blocks[b].uniforms@[j].offset + 64 <= blocks[b].buffer_data.bytes@.len(),
        None => true,
    }
}

/// A member search only returns positions at or after its start, inside
/// bounds, bearing the name.
proof fn lemma_find_member_from_valid(uniforms: Seq<GlUniformInfo>, name: Seq<char>, j: int)
    requires
        0 <= j,
    ensures
        find_member_from(uniforms, name, j) matches Some(x) ==> j <= x < uniforms.len()
            && uniforms[x].name@ == name,
    decreases uniforms.len() - j,
{
    if j < uniforms.len() && uniforms[j].name@ != name {
        lemma_find_member_from_valid(uniforms, name, j + 1);
    }
}

/// A block search only returns valid positions bearing the name.
proof fn lemma_find_block_from_valid(blocks: Seq<GLUniformBlock>, name: Seq<char>, k: int)
    requires
        0 <= k,
    ensures
        find_block_from(blocks, name, k) matches Some((b, j)) ==> k <= b < blocks.len() && 0 <= j
            < blocks[b].uniforms@.len() && blocks[b].uniforms@[j].name@ == name,
    decreases blocks.len() - k,
{
    if 0 <= k < blocks.len() {
        lemma_find_member_from_valid(blocks[k].uniforms@, name, 0);
        match find_member_from(blocks[k].uniforms@, name, 0) {
            Some(_) => {},
            None => {
                lemma_find_block_from_valid(blocks, name, k + 1);
            },
        }
    }
}

/// The block search reads member names only, so it agrees on block
/// sequences whose members agree.
proof fn lemma_find_block_structure(
    a: Seq<GLUniformBlock>,
    b: Seq<GLUniformBlock>,
    name: Seq<char>,
    k: int,
)
    requires
        a.len() == b.len(),
        forall|i: int| 0 <= i < a.len() ==> (#[trigger] a[i]).uniforms@ == b[i].uniforms@,
    ensures
        find_block_from(a, name, k) == find_block_from(b, name, k),
    decreases a.len() - k,
{
    if 0 <= k < a.len() {
        assert(a[k].uniforms@ == b[k].uniforms@);
        lemma_find_block_structure(a, b, name, k + 1);
    }
}

/// Whether a matrix write fits depends only on the members and the
/// shadow lengths, which draws preserve.
pub proof fn lemma_mat4_write_fits_structure(
    a: Seq<GLUniformBlock>,
    b: Seq<GLUniformBlock>,
    name: Seq<char>,
)
    requires
        a.len() == b.len(),
        forall|i: int| 0 <= i < a.len() ==> (#[trigger] a[i]).uniforms@ == b[i].uniforms@,
        forall|i: int|
            0 <= i < a.len() ==> (#[trigger] a[i]).buffer_data.bytes@.len()
                == b[i].buffer_data.bytes@.len(),
    ensures
        mat4_write_fits(a, name) == mat4_write_fits(b, name),
{
    lemma_find_block_structure(a, b, name, 0);
    lemma_find_block_from_valid(a, name, 0);
    lemma_find_block_from_valid(b, name, 0);
    match find_block_from(a, name, 0) {
        Some((bb, jj)) => {
            assert(a[bb].uniforms@ == b[bb].uniforms@);
        },
        None => {},
    }
}

/// Applying one dirty name whose value is a matrix succeeds exactly when
/// the matrix fits at its member's offset.
pub proof fn lemma_single_mat4_step(
    blocks: Seq<GLUniformBlock>,
    samplers: Seq<GLSampler2D>,
    groups: Seq<ParamGroup>,
    name: Seq<char>,
)
    requires
        param_value_of(groups, name) matches ParamValue::Mat4(_),
    ensures
        ({
            let st0 = (
                blocks.map_values(|b: GLUniformBlock| b.buffer_data.bytes@),
                samplers.map_values(|sm: GLSampler2D| sm.tex_id),
                Seq::<usize>::empty(),
                Seq::<GlCommand>::empty(),
                true,
            );
            apply_names(blocks, samplers, groups, seq![name], st0).4 == mat4_write_fits(
                blocks,
                name,
            )
        }),
{
    let st0: ApplyState = (
        blocks.map_values(|b: GLUniformBlock| b.buffer_data.bytes@),
        samplers.map_values(|sm: GLSampler2D| sm.tex_id),
        Seq::<usize>::empty(),
        Seq::<GlCommand>::empty(),
        true,
    );
    let names = seq![name];
    assert(names[0] == name);
    assert(names.skip(1) =~= Seq::<Seq<char>>::empty());
    let st1 = apply_step(blocks, samplers, groups, name, st0);
    assert(apply_names(blocks, samplers, groups, Seq::<Seq<char>>::empty(), st1) == st1);
    let v = param_value_of(groups, name);
    lemma_find_block_from_valid(blocks, name, 0);
    match find_block_from(blocks, name, 0) {
        Some((b, j)) => {
            assert(st0.0[b] == blocks[b].buffer_data.bytes@);
            match v {
                ParamValue::Mat4(a) => {
                    assert(value_words(v).len() == 16);
                    crate::buffer::lemma_words_bytes_len(value_words(v));
                },
                _ => {
                    assert(false);
                },
            }
        },
        None => {},
    }
}

} // verus!
