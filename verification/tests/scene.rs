use rusto::buffer::BufferData;
use rusto::camera::Camera;
use rusto::fixed::FP_ONE;
use rusto::model::SceneError;
use rusto::opengl::RenderError;
use rusto::gl_commands::GlCommand;
use rusto::math::{mat4_identity, QuatFp, Vec3Fp};
use rusto::mesh::MeshData;
use rusto::node::Node;
use rusto::opengl::{GlBlockInfo, GlUniformInfo, GlUniformKind, ProgramReflection};
use rusto::renderer::renderer_factory;
use rusto::scene::Scene;
use rusto::vertex_layout::{VertexElementType, VertexLayoutDescription};
use rusto::transform::Transform;

fn empty_scene() -> Scene {
    let renderer = renderer_factory("OpenGL").unwrap();
    let camera = Camera::new(mat4_identity());
    Scene::new(renderer, camera)
}

#[test]
fn preorder_visits_descendants_before_later_siblings() {
    // root -> child A -> child A's child B, and root -> child C:
    // the pre-order walk visits A, B, C in that order
    let mut scene = empty_scene();
    let a = scene.new_child_node("A");
    let b = scene.attach_child(a, Node::new("B", Some(a)));
    let c = scene.new_child_node("C");
    let order = scene.preorder_indices();
    assert_eq!(order, vec![0, a, b, c]);
    assert!(a < b && b < c);
}

#[test]
fn preorder_is_depth_first_at_every_level() {
    let mut scene = empty_scene();
    let a = scene.new_child_node("A");
    let b = scene.new_child_node("B");
    let a1 = scene.attach_child(a, Node::new("A1", Some(a)));
    let a2 = scene.attach_child(a, Node::new("A2", Some(a)));
    let b1 = scene.attach_child(b, Node::new("B1", Some(b)));
    let order = scene.preorder_indices();
    assert_eq!(order, vec![0, a, a1, a2, b, b1]);
}

#[test]
fn children_are_found_by_name() {
    let mut scene = empty_scene();
    let a = scene.new_child_node("alpha");
    let beta = scene.attach_child(a, Node::new("beta", Some(a)));
    // direct children only
    assert_eq!(scene.get_child_by_name(0, "alpha", false), Some(a));
    assert_eq!(scene.get_child_by_name(0, "beta", false), None);
    // recursive descent finds grandchildren
    assert_eq!(scene.get_child_by_name(0, "beta", true), Some(beta));
    assert_eq!(scene.get_child_by_name(0, "gamma", true), None);
}

#[test]
fn frame_clears_first_and_succeeds_on_an_empty_scene() {
    let mut scene = empty_scene();
    let mut cmds: Vec<GlCommand> = Vec::new();
    scene.frame(&mut cmds).unwrap();
    assert!(matches!(cmds[0], GlCommand::Clear { .. }));
}

#[test]
fn node_transform_change_replaces_the_transform() {
    let mut node = Node::new("thing", None);
    assert_eq!(*node.transform(), Transform::identity());
    let t = Transform::new(
        Vec3Fp::new(FP_ONE, 0, 0),
        QuatFp::new(FP_ONE, 0, 0, 0),
        Vec3Fp::new(FP_ONE, FP_ONE, FP_ONE),
    );
    node.transform_change(t).unwrap();
    assert_eq!(*node.transform(), t);
    assert_eq!(node.child_count(), 0);
    assert_eq!(node.child_by_index(0), None);
    assert_eq!(node.components().len(), 0);
}

#[test]
fn camera_holds_its_projection_and_transform() {
    let mut camera = Camera::new(mat4_identity());
    assert_eq!(*camera.transform(), Transform::identity());
    let proj = camera.projection();
    assert_eq!(proj.m[0], FP_ONE);
    // the view of the identity transform is the identity matrix
    let view = camera.view().unwrap();
    for r in 0..4usize {
        for c in 0..4usize {
            let expected = if r == c { FP_ONE } else { 0 };
            assert_eq!(view.m[4 * r + c], expected);
        }
    }
    // moving the camera moves its view
    let t = Transform::new(
        Vec3Fp::new(0, 0, 5 * FP_ONE),
        QuatFp::new(FP_ONE, 0, 0, 0),
        Vec3Fp::new(FP_ONE, FP_ONE, FP_ONE),
    );
    camera.transform_change(t);
    let moved = camera.view().unwrap();
    // translation column is the negated position
    assert_eq!(moved.m[11], -5 * FP_ONE);
}

#[test]
fn a_frame_draws_every_attached_model() {
    let mut scene = empty_scene();
    let node = scene.new_child_node("thing");
    let mut layout = VertexLayoutDescription::new();
    layout.add_element("position".to_string(), VertexElementType::F32F32F32);
    let meshes = vec![MeshData {
        vertex_data: BufferData::new_initialized(vec![0u32; 9]),
        index_data: BufferData::new_initialized(vec![0u32, 1, 2]),
        layout,
    }];
    let reflection = ProgramReflection {
        blocks: vec![GlBlockInfo {
            name: "Matrices".to_string(),
            size: 64,
            uniforms: vec![GlUniformInfo {
                name: "model_view_proj".to_string(),
                index: 0,
                offset: 0,
                kind: GlUniformKind::Mat4,
            }],
        }],
        uniforms: vec![],
    };
    let mut cmds: Vec<GlCommand> = Vec::new();
    scene
        .attach_model_component(node, &meshes, "void main(){}", "void main(){}", &reflection, &mut cmds)
        .unwrap();
    cmds.clear();
    scene.frame(&mut cmds).unwrap();
    assert!(matches!(cmds[0], GlCommand::Clear { .. }));
    // the model set its matrix, so its block uploads, then it draws
    assert!(cmds.iter().any(|c| matches!(c, GlCommand::UniformBufferSubData { .. })));
    assert!(cmds
        .iter()
        .any(|c| matches!(c, GlCommand::DrawTriangles { count: 3, .. })));
}

#[test]
fn a_zero_scale_camera_cannot_be_inverted() {
    let mut camera = Camera::new(mat4_identity());
    camera.transform_change(Transform::new(
        Vec3Fp::zero(),
        QuatFp::one(),
        Vec3Fp::new(0, FP_ONE, FP_ONE),
    ));
    assert!(camera.view().is_none());
}

#[test]
fn a_schema_without_the_matrix_parameter_fails_the_frame() {
    let mut scene = empty_scene();
    let node = scene.new_child_node("thing");
    let mut layout = VertexLayoutDescription::new();
    layout.add_element("position".to_string(), VertexElementType::F32F32F32);
    let meshes = vec![MeshData {
        vertex_data: BufferData::new_initialized(vec![0u32; 9]),
        index_data: BufferData::new_initialized(vec![0u32, 1, 2]),
        layout,
    }];
    // no uniform block at all: the model's matrix has nowhere to go
    let reflection = ProgramReflection { blocks: vec![], uniforms: vec![] };
    let mut cmds: Vec<GlCommand> = Vec::new();
    scene
        .attach_model_component(node, &meshes, "void main(){}", "void main(){}", &reflection, &mut cmds)
        .unwrap();
    let r = scene.frame(&mut cmds);
    assert!(matches!(r, Err(SceneError::UnknownParameter(_))));
}

#[test]
fn a_matrix_that_cannot_fit_its_member_fails_the_frame() {
    let mut scene = empty_scene();
    let node = scene.new_child_node("thing");
    let mut layout = VertexLayoutDescription::new();
    layout.add_element("position".to_string(), VertexElementType::F32F32F32);
    let meshes = vec![MeshData {
        vertex_data: BufferData::new_initialized(vec![0u32; 9]),
        index_data: BufferData::new_initialized(vec![0u32, 1, 2]),
        layout,
    }];
    // the parameter is reflected as a float near the end of its block, so
    // the matrix the model writes cannot fit there
    let reflection = ProgramReflection {
        blocks: vec![GlBlockInfo {
            name: "Matrices".to_string(),
            size: 16,
            uniforms: vec![GlUniformInfo {
                name: "model_view_proj".to_string(),
                index: 0,
                offset: 12,
                kind: GlUniformKind::Float,
            }],
        }],
        uniforms: vec![],
    };
    let mut cmds: Vec<GlCommand> = Vec::new();
    scene
        .attach_model_component(node, &meshes, "void main(){}", "void main(){}", &reflection, &mut cmds)
        .unwrap();
    let r = scene.frame(&mut cmds);
    assert!(matches!(r, Err(SceneError::Render(RenderError::ValueOutsideBlock))));
}

#[test]
fn new_children_hang_off_the_root_in_order() {
    let mut scene = empty_scene();
    let a = scene.new_child_node("a");
    let b = scene.new_child_node("b");
    assert_eq!(a, 1);
    assert_eq!(b, 2);
    assert_eq!(scene.preorder_indices(), vec![0, a, b]);
}
