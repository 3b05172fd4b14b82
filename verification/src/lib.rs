//! A minimal real-time rendering engine core: raw byte buffers for
//! GPU-bound data, vertex layout descriptions, named shader parameters
//! with dirty-change tracking, a command-emitting OpenGL backend with a
//! bind-state cache, and a scene graph of hierarchical transforms.

pub mod buffer;
pub mod camera;
pub mod fixed;
pub mod gl_commands;
pub mod gl_state;
pub mod material;
pub mod math;
pub mod mesh;
pub mod model;
pub mod node;
pub mod opengl;
pub mod renderer;
pub mod scene;
pub mod settings;
pub mod shader_params;
pub mod texture;
pub mod transform;
pub mod vertex_layout;

use vstd::prelude::*;

verus! {

/// The width of the entries of an index buffer.
#[derive(Clone, Copy, PartialEq, Eq, Structural, Debug)]
pub enum IndexType {
    U16,
    U32,
}

} // verus!
