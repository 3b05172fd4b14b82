use rusto::buffer::BufferData;
use rusto::fixed::FP_ONE;
use rusto::gl_commands::GlCommand;
use rusto::opengl::{GlBlockInfo, GlUniformInfo, GlUniformKind, ProgramReflection, RenderError};
use rusto::renderer::{determine_best_renderer, renderer_factory, RendererError};
use rusto::shader_params::ParamValue;
use rusto::texture::{Texture, TextureFormat};
use rusto::vertex_layout::{VertexElementType, VertexLayoutDescription};
use rusto::IndexType;

const VERT: &str = "void main() { }";
const FRAG: &str = "void main() { }";

fn simple_reflection() -> ProgramReflection {
    ProgramReflection {
        blocks: vec![GlBlockInfo {
            name: "Matrices".to_string(),
            size: 64,
            uniforms: vec![GlUniformInfo {
                name: "model_view_proj".to_string(),
                index: 0,
                offset: 0,
                kind: GlUniformKind::Mat4,
            }],
        }],
        uniforms: vec![GlUniformInfo {
            name: "tex".to_string(),
            index: 7,
            offset: 0,
            kind: GlUniformKind::Sampler2D,
        }],
    }
}

fn simple_layout() -> VertexLayoutDescription {
    let mut layout = VertexLayoutDescription::new();
    layout.add_element("position".to_string(), VertexElementType::F32F32F32);
    layout
}

#[test]
fn factory_knows_opengl_and_refuses_the_rest() {
    assert_eq!(determine_best_renderer(), "OpenGL");
    assert!(renderer_factory("OpenGL").is_ok());
    match renderer_factory("Vulkan") {
        Err(RendererError::UnsupportedRenderer(n)) => assert_eq!(n, "Vulkan"),
        _ => panic!("expected an unsupported-renderer error"),
    }
}

#[test]
fn geometry_creation_reflects_the_schema() {
    let mut renderer = renderer_factory("OpenGL").unwrap();
    let mut cmds: Vec<GlCommand> = Vec::new();
    let vertex_data = BufferData::new_initialized(vec![0u32; 9]);
    let index_data = BufferData::new_initialized(vec![0u32, 1, 2]);
    let layout = simple_layout();
    let geom = renderer
        .create_geometry(
            &vertex_data,
            &index_data,
            &layout,
            IndexType::U32,
            VERT,
            FRAG,
            &simple_reflection(),
            &mut cmds,
        )
        .unwrap();
    // one group per uniform block plus the synthetic texture group
    let groups = geom.get_params().groups();
    assert_eq!(groups.len(), 2);
    assert_eq!(groups[0].name, "Matrices");
    assert_eq!(groups[0].params[0].name, "model_view_proj");
    // matrices default to the identity
    match groups[0].params[0].value {
        ParamValue::Mat4(m) => {
            assert_eq!(m[0], FP_ONE);
            assert_eq!(m[1], 0);
        }
        _ => panic!("wrong default kind"),
    }
    assert_eq!(groups[1].name, "_textures");
    assert_eq!(groups[1].params[0].name, "tex");
    assert!(matches!(groups[1].params[0].value, ParamValue::Texture2D(0)));
    // creation order: vertex buffer, program and blocks, vertex array,
    // attribute binding, index buffer
    assert!(matches!(cmds[0], GlCommand::CreateBuffer(_)));
    assert!(matches!(cmds[2], GlCommand::ArrayBufferData { .. }));
    assert!(matches!(cmds[3], GlCommand::LinkProgram { .. }));
    assert!(matches!(cmds[cmds.len() - 1], GlCommand::ElementArrayBufferData { .. }));
    // 3 vbo + 1 link + 5 per block + 3 vao/binds + 3 per element + 3 ibo
    assert_eq!(cmds.len(), 10 + 5 * 1 + 3 * 1);
}

#[test]
fn geometry_creation_refuses_bad_reflection() {
    let mut renderer = renderer_factory("OpenGL").unwrap();
    let mut cmds: Vec<GlCommand> = Vec::new();
    let vertex_data = BufferData::new_initialized(vec![0u32; 3]);
    let index_data = BufferData::new_initialized(vec![0u32]);
    // a member that runs past its block's size
    let reflection = ProgramReflection {
        blocks: vec![GlBlockInfo {
            name: "Matrices".to_string(),
            size: 16,
            uniforms: vec![GlUniformInfo {
                name: "model_view_proj".to_string(),
                index: 0,
                offset: 0,
                kind: GlUniformKind::Mat4,
            }],
        }],
        uniforms: vec![],
    };
    let r = renderer.create_geometry(
        &vertex_data,
        &index_data,
        &simple_layout(),
        IndexType::U32,
        VERT,
        FRAG,
        &reflection,
        &mut cmds,
    );
    assert!(r.is_err());
    assert!(cmds.is_empty());
}

#[test]
fn geometries_from_identical_inputs_are_independent() {
    // two creations from the same inputs: distinct handles, and drawing
    // or mutating one leaves the other's parameter values alone
    let mut renderer = renderer_factory("OpenGL").unwrap();
    let mut cmds: Vec<GlCommand> = Vec::new();
    let vertex_data = BufferData::new_initialized(vec![0u32; 9]);
    let index_data = BufferData::new_initialized(vec![0u32, 1, 2]);
    let layout = simple_layout();
    let reflection = simple_reflection();
    let mut g1 = renderer
        .create_geometry(
            &vertex_data, &index_data, &layout, IndexType::U32, VERT, FRAG, &reflection,
            &mut cmds,
        )
        .unwrap();
    let g2 = renderer
        .create_geometry(
            &vertex_data, &index_data, &layout, IndexType::U32, VERT, FRAG, &reflection,
            &mut cmds,
        )
        .unwrap();
    // set a parameter on the first and draw it
    g1.get_mut_params()
        .set("model_view_proj", ParamValue::F32(77))
        .unwrap();
    renderer.draw_geometry(&mut g1, &mut cmds).unwrap();
    // the second geometry's value is untouched
    match g2.get_params().get("model_view_proj").unwrap() {
        ParamValue::Mat4(m) => assert_eq!(m[0], FP_ONE),
        _ => panic!("second geometry's value was touched"),
    }
}

#[test]
fn draw_applies_dirty_parameters_then_draws() {
    let mut renderer = renderer_factory("OpenGL").unwrap();
    let mut cmds: Vec<GlCommand> = Vec::new();
    let vertex_data = BufferData::new_initialized(vec![0u32; 9]);
    let index_data = BufferData::new_initialized(vec![0u32, 1, 2]);
    let mut geom = renderer
        .create_geometry(
            &vertex_data,
            &index_data,
            &simple_layout(),
            IndexType::U32,
            VERT,
            FRAG,
            &simple_reflection(),
            &mut cmds,
        )
        .unwrap();
    geom.get_mut_params()
        .set("model_view_proj", ParamValue::F32(3 * FP_ONE))
        .unwrap();
    geom.get_mut_params()
        .set("tex", ParamValue::Texture2D(12))
        .unwrap();
    cmds.clear();
    renderer.draw_geometry(&mut geom, &mut cmds).unwrap();
    // the sampler got its unit, the affected block was uploaded whole,
    // and the draw comes last with the index count
    assert!(cmds.iter().any(|c| matches!(c, GlCommand::Uniform1i { value: 0, .. })));
    let upload = cmds
        .iter()
        .find_map(|c| match c {
            GlCommand::UniformBufferSubData { bytes } => Some(bytes.clone()),
            _ => None,
        })
        .expect("an affected block must be uploaded");
    assert_eq!(upload.len(), 64);
    assert_eq!(&upload[0..4], &[0u8, 0, 3, 0]); // 3.0 in the scalar encoding
    assert!(matches!(
        cmds[cmds.len() - 1],
        GlCommand::DrawTriangles { count: 3, index_type: IndexType::U32 }
    ));
    // the dirty log drained: drawing again re-binds but uploads nothing
    cmds.clear();
    renderer.draw_geometry(&mut geom, &mut cmds).unwrap();
    assert!(!cmds.iter().any(|c| matches!(c, GlCommand::UniformBufferSubData { .. })));
}

#[test]
fn repeated_draws_skip_redundant_binds() {
    let mut renderer = renderer_factory("OpenGL").unwrap();
    let mut cmds: Vec<GlCommand> = Vec::new();
    let vertex_data = BufferData::new_initialized(vec![0u32; 9]);
    let index_data = BufferData::new_initialized(vec![0u32, 1, 2]);
    let mut geom = renderer
        .create_geometry(
            &vertex_data,
            &index_data,
            &simple_layout(),
            IndexType::U32,
            VERT,
            FRAG,
            &simple_reflection(),
            &mut cmds,
        )
        .unwrap();
    cmds.clear();
    renderer.draw_geometry(&mut geom, &mut cmds).unwrap();
    let first_draw_len = cmds.len();
    cmds.clear();
    renderer.draw_geometry(&mut geom, &mut cmds).unwrap();
    // everything is already bound: only the texture-unit sampler state
    // and the draw itself remain
    assert!(cmds.len() < first_draw_len);
    assert!(!cmds.iter().any(|c| matches!(c, GlCommand::BindVertexArray(_))));
    assert!(matches!(cmds[cmds.len() - 1], GlCommand::DrawTriangles { .. }));
}

#[test]
fn texture_creation_infers_format_from_channels() {
    let mut renderer = renderer_factory("OpenGL").unwrap();
    let mut cmds: Vec<GlCommand> = Vec::new();
    let rgb = image::DynamicImage::ImageRgb8(image::RgbImage::new(2, 2));
    let t = renderer.create_texture_from_image(&rgb, &mut cmds).unwrap();
    assert_eq!(*t.format(), TextureFormat::RGB);
    let gray = image::DynamicImage::ImageLuma8(image::GrayImage::new(2, 2));
    let t2 = renderer.create_texture_from_image(&gray, &mut cmds).unwrap();
    assert_eq!(*t2.format(), TextureFormat::Luminance);
    assert_ne!(t.param_handle(), t2.param_handle());
    // the upload carries the right format and the pixel bytes
    assert!(cmds.iter().any(|c| matches!(
        c,
        GlCommand::TexImage2D { format: TextureFormat::RGB, width: 2, height: 2, .. }
    )));
}

#[test]
fn texture_filtering_change_is_recorded() {
    let mut renderer = renderer_factory("OpenGL").unwrap();
    let mut cmds: Vec<GlCommand> = Vec::new();
    let rgba = image::DynamicImage::ImageRgba8(image::RgbaImage::new(1, 1));
    let mut t = renderer.create_texture_from_image(&rgba, &mut cmds).unwrap();
    assert_eq!(*t.format(), TextureFormat::RGBA);
    t.set_filtering_method(rusto::texture::FilteringMethod::TriLinear);
    assert_eq!(*t.format(), TextureFormat::RGBA);
}

#[test]
fn unsupported_member_kinds_are_refused() {
    let mut renderer = renderer_factory("OpenGL").unwrap();
    let mut cmds: Vec<GlCommand> = Vec::new();
    let vertex_data = BufferData::new_initialized(vec![0u32; 3]);
    let index_data = BufferData::new_initialized(vec![0u32]);
    let reflection = ProgramReflection {
        blocks: vec![GlBlockInfo {
            name: "Matrices".to_string(),
            size: 64,
            uniforms: vec![GlUniformInfo {
                name: "weird".to_string(),
                index: 0,
                offset: 0,
                kind: GlUniformKind::Other,
            }],
        }],
        uniforms: vec![],
    };
    let r = renderer.create_geometry(
        &vertex_data, &index_data, &simple_layout(), IndexType::U32, VERT, FRAG, &reflection,
        &mut cmds,
    );
    assert!(matches!(r, Err(RenderError::UnsupportedUniformType)));
}

#[test]
fn clashing_parameter_names_are_refused() {
    let mut renderer = renderer_factory("OpenGL").unwrap();
    let mut cmds: Vec<GlCommand> = Vec::new();
    let vertex_data = BufferData::new_initialized(vec![0u32; 3]);
    let index_data = BufferData::new_initialized(vec![0u32]);
    let member = GlUniformInfo {
        name: "twice".to_string(),
        index: 0,
        offset: 0,
        kind: GlUniformKind::Float,
    };
    let reflection = ProgramReflection {
        blocks: vec![GlBlockInfo {
            name: "Values".to_string(),
            size: 16,
            uniforms: vec![member.clone(), GlUniformInfo { offset: 4, ..member }],
        }],
        uniforms: vec![],
    };
    let r = renderer.create_geometry(
        &vertex_data, &index_data, &simple_layout(), IndexType::U32, VERT, FRAG, &reflection,
        &mut cmds,
    );
    assert!(matches!(r, Err(RenderError::DuplicateParameterName)));
}

#[test]
fn a_value_wider_than_its_block_fails_the_draw() {
    let mut renderer = renderer_factory("OpenGL").unwrap();
    let mut cmds: Vec<GlCommand> = Vec::new();
    let vertex_data = BufferData::new_initialized(vec![0u32; 3]);
    let index_data = BufferData::new_initialized(vec![0u32]);
    // a float member at the end of a small block
    let reflection = ProgramReflection {
        blocks: vec![GlBlockInfo {
            name: "Values".to_string(),
            size: 16,
            uniforms: vec![GlUniformInfo {
                name: "shine".to_string(),
                index: 0,
                offset: 12,
                kind: GlUniformKind::Float,
            }],
        }],
        uniforms: vec![],
    };
    let mut geom = renderer
        .create_geometry(
            &vertex_data, &index_data, &simple_layout(), IndexType::U32, VERT, FRAG, &reflection,
            &mut cmds,
        )
        .unwrap();
    // a matrix cannot fit where a float was reflected
    geom.get_mut_params()
        .set("shine", ParamValue::Mat4([0; 16]))
        .unwrap();
    let r = renderer.draw_geometry(&mut geom, &mut cmds);
    assert!(matches!(r, Err(RenderError::ValueOutsideBlock)));
}

#[test]
fn sixteen_bit_images_cannot_be_uploaded() {
    let mut renderer = renderer_factory("OpenGL").unwrap();
    let mut cmds: Vec<GlCommand> = Vec::new();
    let wide = image::DynamicImage::ImageRgb16(image::ImageBuffer::new(1, 1));
    let r = renderer.create_texture_from_image(&wide, &mut cmds);
    assert!(matches!(r, Err(RenderError::UnsupportedImageLayout)));
    assert!(cmds.is_empty());
}
