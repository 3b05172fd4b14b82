//! The backend's output: a stream of GPU commands as plain data.
//!
//! The renderer decides what the GPU must do — which objects to create,
//! which binds are redundant, which buffers to upload — and emits it as
//! [`GlCommand`] values. A thin executor outside the library turns each
//! command into the matching driver call, mapping the renderer's object
//! ids to driver-issued ones.

use crate::fixed::Fp;
use crate::texture::TextureFormat;
use crate::IndexType;
use vstd::prelude::*;

verus! {

/// The bind command a state cache emits: none when `requested` is the
/// cached handle, else `cmd`.
pub open spec fn bind_piece(cached: u32, requested: u32, cmd: GlCommand) -> Seq<GlCommand> {
    if cached == requested {
        Seq::empty()
    } else {
        seq![cmd]
    }
}

/// One GPU command. Buffer-data commands act on the buffer bound by the
/// closest preceding bind command, as the driver's own calls do.
#[derive(Clone, Debug)]
pub enum GlCommand {
    /// Create a buffer object under the given id.
    CreateBuffer(u32),
    /// Create a vertex array object under the given id.
    CreateVertexArray(u32),
    /// Create a texture object under the given id.
    CreateTexture(u32),
    /// Compile the two shader stages and link them as the given program.
    LinkProgram { program: u32, vertex_source: String, fragment_source: String },
    /// Make the program current.
    UseProgram(u32),
    /// Bind the vertex array object.
    BindVertexArray(u32),
    /// Bind the buffer as the vertex buffer.
    BindArrayBuffer(u32),
    /// Bind the buffer as the index buffer.
    BindElementArrayBuffer(u32),
    /// Bind the buffer as the uniform buffer.
    BindUniformBuffer(u32),
    /// Make the unit active and bind the texture to it.
    BindTexture { unit: u32, texture: u32 },
    /// Upload the bytes to the bound vertex buffer.
    ArrayBufferData { bytes: Vec<u8> },
    /// Upload the bytes to the bound index buffer.
    ElementArrayBufferData { bytes: Vec<u8> },
    /// Allocate the bound uniform buffer with the given byte size, zeroed.
    UniformBufferData { size: usize },
    /// Overwrite the bound uniform buffer from its start.
    UniformBufferSubData { bytes: Vec<u8> },
    /// Assign a program's uniform block to a binding index.
    UniformBlockBinding { program: u32, block_index: u32, binding: u32 },
    /// Attach a buffer to a uniform binding index.
    BindBufferBase { binding: u32, buffer: u32 },
    /// Bind a vertex attribute name to an attribute index of a program.
    BindAttribLocation { program: u32, index: u32, name: String },
    /// Enable a vertex attribute index.
    EnableVertexAttribArray { index: u32 },
    /// Describe one attribute of the bound vertex buffer.
    VertexAttribPointer { index: u32, components: i32, stride: usize, offset: usize },
    /// Set an integer uniform (a sampler's texture unit).
    Uniform1i { location: u32, value: i32 },
    /// Fill the bound texture with pixels.
    TexImage2D { format: TextureFormat, width: u32, height: u32, pixels: Vec<u8> },
    /// Set the bound texture's filtering to nearest-neighbour.
    TexParameterNearest,
    /// Draw the bound index buffer as triangles.
    DrawTriangles { count: usize, index_type: IndexType },
    /// Clear the color buffer to the given fixed-point color.
    Clear { r: Fp, g: Fp, b: Fp, a: Fp },
}

} // verus!
