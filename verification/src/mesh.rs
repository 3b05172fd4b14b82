//! Mesh data assembly: interleaving per-vertex attribute streams into
//! one packed vertex buffer with its layout, and flattening faces into
//! an index buffer.
//!
//! Importing a mesh file is a collaborator's job; it hands over plain
//! attribute streams (positions, normals, texture coordinates, tangent
//! frames, triangle faces) as raw 32-bit words, and this module builds
//! the byte buffers and layout the renderer consumes.

use crate::buffer::{words_bytes, BufferData};
use crate::vertex_layout::{VertexElementType, VertexLayoutDescription};
use vstd::prelude::*;

verus! {

/// Error raised when attribute streams disagree about the vertex count.
#[derive(Clone, Copy, PartialEq, Eq, Structural, Debug)]
pub enum MeshError {
    MismatchedAttributeCounts,
}

/// Mesh import options: which attributes to generate and the names the
/// layout gives them.
pub struct MeshOptions {
    pub gen_normals: bool,
    pub gen_uv_coords: bool,
    pub calc_tangents: bool,
    pub position_attr_name: String,
    pub normal_attr_name: String,
    pub tex_coord_attr_name: String,
    pub tangent_attr_name: String,
    pub bitangent_attr_name: String,
}

impl MeshOptions {
    /// The default options: generate smooth normals and tangent frames,
    /// keep imported texture coordinates, and use the usual attribute
    /// names.
    pub fn default() -> (options: MeshOptions)
        ensures
            options.gen_normals == true,
            options.gen_uv_coords == false,
            options.calc_tangents == true,
            options.position_attr_name@ == "position"@,
            options.normal_attr_name@ == "normal"@,
            options.tex_coord_attr_name@ == "tex_coord"@,
            options.tangent_attr_name@ == "tangent"@,
            options.bitangent_attr_name@ == "bitangent"@,
    {
        MeshOptions {
            gen_normals: true,
            gen_uv_coords: false,
            calc_tangents: true,
            position_attr_name: "position".to_owned(),
            normal_attr_name: "normal".to_owned(),
            tex_coord_attr_name: "tex_coord".to_owned(),
            tangent_attr_name: "tangent".to_owned(),
            bitangent_attr_name: "bitangent".to_owned(),
        }
    }
}

/// One mesh, ready for geometry creation: packed vertex bytes, index
/// bytes, and the vertex layout.
pub struct MeshData {
    pub vertex_data: BufferData,
    pub index_data: BufferData,
    pub layout: VertexLayoutDescription,
}

/// The attribute streams of one imported mesh, as raw 32-bit words
/// (scalar bit patterns pass through untouched). An absent attribute is
/// an empty stream; a present one has one entry per vertex.
pub struct MeshSource {
    pub positions: Vec<[u32; 3]>,
    pub normals: Vec<[u32; 3]>,
    pub tex_coords: Vec<[u32; 2]>,
    pub tangents: Vec<[u32; 3]>,
    pub bitangents: Vec<[u32; 3]>,
    pub faces: Vec<[u32; 3]>,
}

impl MeshSource {
    /// Whether the source carries normals.
    pub open spec fn has_normals(&self) -> bool {
        self.normals@.len() > 0
    }

    /// Whether the source carries texture coordinates.
    pub open spec fn has_tex_coords(&self) -> bool {
        self.tex_coords@.len() > 0
    }

    /// Whether the source carries a tangent frame.
    pub open spec fn has_tangents(&self) -> bool {
        self.tangents@.len() > 0
    }

    /// Every present attribute stream has one entry per vertex, and
    /// tangents and bitangents come together.
    pub open spec fn counts_consistent(&self) -> bool {
        &&& self.has_normals() ==> self.normals@.len() == self.positions@.len()
        &&& self.has_tex_coords() ==> self.tex_coords@.len() == self.positions@.len()
        &&& self.has_tangents() ==> self.tangents@.len() == self.positions@.len()
            && self.bitangents@.len() == self.positions@.len()
        &&& !self.has_tangents() ==> self.bitangents@.len() == 0
    }
}

/// The packed words of vertex `i`: position, then each present
/// attribute in layout order.
pub open spec fn vertex_words(source: MeshSource, i: int) -> Seq<u32> {
    source.positions@[i]@ + (if source.has_normals() {
        source.normals@[i]@
    } else {
        Seq::empty()
    }) + (if source.has_tex_coords() {
        source.tex_coords@[i]@
    } else {
        Seq::empty()
    }) + (if source.has_tangents() {
        source.tangents@[i]@ + source.bitangents@[i]@
    } else {
        Seq::empty()
    })
}

/// The interleaved words of the first `n` vertices, in vertex order.
pub open spec fn interleaved_words(source: MeshSource, n: int) -> Seq<u32>
    decreases n,
{
    if n <= 0 {
        Seq::empty()
    } else {
        interleaved_words(source, n - 1) + vertex_words(source, n - 1)
    }
}

/// The flattened indices of the first `n` faces, three per face.
pub open spec fn face_words(faces: Seq<[u32; 3]>, n: int) -> Seq<u32>
    decreases n,
{
    if n <= 0 {
        Seq::empty()
    } else {
        face_words(faces, n - 1) + faces[n - 1]@
    }
}

/// The attribute names and types the built layout holds, in order.
pub open spec fn mesh_attributes(source: MeshSource, options: MeshOptions) -> Seq<
    (Seq<char>, VertexElementType),
> {
    seq![(options.position_attr_name@, VertexElementType::F32F32F32)] + (
    if source.has_normals() {
        seq![(options.normal_attr_name@, VertexElementType::F32F32F32)]
    } else {
        Seq::empty()
    }) + (if source.has_tex_coords() {
        seq![(options.tex_coord_attr_name@, VertexElementType::F32F32)]
    } else {
        Seq::empty()
    }) + (if source.has_tangents() {
        seq![
            (options.tangent_attr_name@, VertexElementType::F32F32F32),
            (options.bitangent_attr_name@, VertexElementType::F32F32F32),
        ]
    } else {
        Seq::empty()
    })
}

/// Builds one mesh from attribute streams: the layout lists the present
/// attributes in order, the vertex buffer holds the interleaved words of
/// every vertex, and the index buffer the flattened faces. Fails exactly
/// when a present stream disagrees about the vertex count.
#[verifier::rlimit(60)]
pub fn build_mesh_data(source: &MeshSource, options: &MeshOptions) -> (result: Result<
    MeshData,
    MeshError,
>)
    ensures
        result is Ok <==> source.counts_consistent(),
        result matches Ok(m) ==> {
            &&& m.layout.wf()
            &&& m.layout.elements@.len() == mesh_attributes(*source, *options).len()
            &&& forall|i: int|
                0 <= i < m.layout.elements@.len() ==> {
                    &&& (#[trigger] m.layout.elements@[i]).name@ == mesh_attributes(
                        *source,
                        *options,
                    )[i].0
                    &&& m.layout.elements@[i].vtype == mesh_attributes(*source, *options)[i].1
                }
            &&& m.vertex_data.bytes@ == words_bytes(
                interleaved_words(*source, source.positions@.len() as int),
            )
            &&& m.index_data.bytes@ == words_bytes(
                face_words(source.faces@, source.faces@.len() as int),
            )
        },
{
    let vertex_count = source.positions.len();
    let has_normals = source.normals.len() > 0;
    let has_tex = source.tex_coords.len() > 0;
    let has_tangents = source.tangents.len() > 0;
    if has_normals && source.normals.len() != vertex_count {
        return Err(MeshError::MismatchedAttributeCounts);
    }
    if has_tex && source.tex_coords.len() != vertex_count {
        return Err(MeshError::MismatchedAttributeCounts);
    }
    if has_tangents && (source.tangents.len() != vertex_count || source.bitangents.len()
        != vertex_count) {
        return Err(MeshError::MismatchedAttributeCounts);
    }
    if !has_tangents && source.bitangents.len() > 0 {
        return Err(MeshError::MismatchedAttributeCounts);
    }
    let mut layout = VertexLayoutDescription::new();
    layout.add_element(options.position_attr_name.clone(), VertexElementType::F32F32F32);
    if has_normals {
        layout.add_element(options.normal_attr_name.clone(), VertexElementType::F32F32F32);
    }
    if has_tex {
        layout.add_element(options.tex_coord_attr_name.clone(), VertexElementType::F32F32);
    }
    if has_tangents {
        layout.add_element(options.tangent_attr_name.clone(), VertexElementType::F32F32F32);
        layout.add_element(options.bitangent_attr_name.clone(), VertexElementType::F32F32F32);
    }
    proof {
        assert(layout.elements@.len() == mesh_attributes(*source, *options).len());
    }
    let mut words: Vec<u32> = Vec::new();
    let mut i: usize = 0;
    while i < vertex_count
        invariant
            i <= vertex_count,
            vertex_count == source.positions@.len(),
            source.counts_consistent(),
            has_normals == source.has_normals(),
            has_tex == source.has_tex_coords(),
            has_tangents == source.has_tangents(),
            words@ == interleaved_words(*source, i as int),
        decreases vertex_count - i,
    {
        let p = &source.positions[i];
        words.push(p[0]);
        words.push(p[1]);
        words.push(p[2]);
        if has_normals {
            let n = &source.normals[i];
            words.push(n[0]);
            words.push(n[1]);
            words.push(n[2]);
        }
        if has_tex {
            let t = &source.tex_coords[i];
            words.push(t[0]);
            words.push(t[1]);
        }
        if has_tangents {
            let t = &source.tangents[i];
            words.push(t[0]);
            words.push(t[1]);
            words.push(t[2]);
            let b = &source.bitangents[i];
            words.push(b[0]);
            words.push(b[1]);
            words.push(b[2]);
        }
        i = i + 1;
        assert(words@ =~= interleaved_words(*source, i as int));
    }
    let vertex_data = BufferData::new_initialized(words);
    let mut indices: Vec<u32> = Vec::new();
    let mut f: usize = 0;
    while f < source.faces.len()
        invariant
            f <= source.faces@.len(),
            indices@ == face_words(source.faces@, f as int),
        decreases source.faces@.len() - f,
    {
        let face = &source.faces[f];
        indices.push(face[0]);
        indices.push(face[1]);
        indices.push(face[2]);
        f = f + 1;
        assert(indices@ =~= face_words(source.faces@, f as int));
    }
    let index_data = BufferData::new_initialized(indices);
    Ok(MeshData { vertex_data, index_data, layout })
}

} // verus!
