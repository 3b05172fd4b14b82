use rusto::mesh::{build_mesh_data, MeshError, MeshOptions, MeshSource};
use rusto::vertex_layout::VertexElementType;

fn f(x: f32) -> u32 {
    x.to_bits()
}

#[test]
fn default_options_generate_normals_and_tangents() {
    let o = MeshOptions::default();
    assert!(o.gen_normals);
    assert!(!o.gen_uv_coords);
    assert!(o.calc_tangents);
    assert_eq!(o.position_attr_name, "position");
    assert_eq!(o.normal_attr_name, "normal");
    assert_eq!(o.tex_coord_attr_name, "tex_coord");
    assert_eq!(o.tangent_attr_name, "tangent");
    assert_eq!(o.bitangent_attr_name, "bitangent");
}

#[test]
fn interleaving_packs_attributes_per_vertex_in_order() {
    let source = MeshSource {
        positions: vec![[f(1.0), f(2.0), f(3.0)], [f(4.0), f(5.0), f(6.0)]],
        normals: vec![[f(0.0), f(1.0), f(0.0)], [f(0.0), f(0.0), f(1.0)]],
        tex_coords: vec![[f(0.25), f(0.75)], [f(0.5), f(0.5)]],
        tangents: vec![],
        bitangents: vec![],
        faces: vec![[0, 1, 2]],
    };
    let mesh = build_mesh_data(&source, &MeshOptions::default()).unwrap();
    // layout: position, normal, tex_coord with cumulative offsets
    assert_eq!(mesh.layout.elements.len(), 3);
    assert_eq!(mesh.layout.elements[0].name, "position");
    assert_eq!(mesh.layout.elements[0].offset, 0);
    assert!(matches!(mesh.layout.elements[0].vtype, VertexElementType::F32F32F32));
    assert_eq!(mesh.layout.elements[1].name, "normal");
    assert_eq!(mesh.layout.elements[1].offset, 12);
    assert_eq!(mesh.layout.elements[2].name, "tex_coord");
    assert_eq!(mesh.layout.elements[2].offset, 24);
    // two vertices of 8 words each
    assert_eq!(mesh.vertex_data.bytes.len(), 2 * 8 * 4);
    // the first vertex's words come in attribute order
    let words = mesh.vertex_data.read_words(0, 8).unwrap();
    assert_eq!(
        words,
        vec![f(1.0), f(2.0), f(3.0), f(0.0), f(1.0), f(0.0), f(0.25), f(0.75)]
    );
    // faces flatten three indices each
    assert_eq!(mesh.index_data.bytes.len(), 3 * 4);
    assert_eq!(mesh.index_data.read_words(0, 3).unwrap(), vec![0u32, 1, 2]);
}

#[test]
fn tangent_frames_come_in_pairs() {
    let source = MeshSource {
        positions: vec![[f(0.0), f(0.0), f(0.0)]],
        normals: vec![],
        tex_coords: vec![],
        tangents: vec![[f(1.0), f(0.0), f(0.0)]],
        bitangents: vec![[f(0.0), f(1.0), f(0.0)]],
        faces: vec![],
    };
    let mesh = build_mesh_data(&source, &MeshOptions::default()).unwrap();
    assert_eq!(mesh.layout.elements.len(), 3);
    assert_eq!(mesh.layout.elements[1].name, "tangent");
    assert_eq!(mesh.layout.elements[2].name, "bitangent");
    assert_eq!(mesh.vertex_data.bytes.len(), 9 * 4);
}

#[test]
fn mismatched_attribute_counts_are_rejected() {
    let source = MeshSource {
        positions: vec![[0, 0, 0], [0, 0, 0]],
        normals: vec![[0, 0, 0]],
        tex_coords: vec![],
        tangents: vec![],
        bitangents: vec![],
        faces: vec![],
    };
    assert!(matches!(
        build_mesh_data(&source, &MeshOptions::default()),
        Err(MeshError::MismatchedAttributeCounts)
    ));
}
