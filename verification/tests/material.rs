use rusto::material::{
    create_backend_data_generators, parse_material_elements, param_tag, variable_tag,
    BackendDataGenerator, BlendFunc, MarkupElement, MaterialCompiler, OpenGLDataGenerator,
    VariableType,
};

fn leaf(name: &str, attributes: Vec<(&str, &str)>, text: &str) -> MarkupElement {
    MarkupElement {
        name: name.to_string(),
        attributes: attributes
            .into_iter()
            .map(|(k, v)| (k.to_string(), v.to_string()))
            .collect(),
        children: vec![],
        text: text.to_string(),
    }
}

fn with_children(name: &str, attributes: Vec<(&str, &str)>, children: Vec<MarkupElement>) -> MarkupElement {
    MarkupElement {
        name: name.to_string(),
        attributes: attributes
            .into_iter()
            .map(|(k, v)| (k.to_string(), v.to_string()))
            .collect(),
        children,
        text: String::new(),
    }
}

#[test]
fn keywords_round_trip_through_their_names() {
    assert_eq!(BlendFunc::from_str("Add"), Some(BlendFunc::Add));
    assert_eq!(BlendFunc::from_str("Subtract"), Some(BlendFunc::Subtract));
    assert_eq!(BlendFunc::from_str("Multiply"), Some(BlendFunc::Multiply));
    assert_eq!(BlendFunc::from_str("screen"), None);
    assert_eq!(BlendFunc::Add.to_str(), "Add");
    assert_eq!(VariableType::from_str("vec3"), Some(VariableType::Vec3));
    assert_eq!(VariableType::from_str("quaternion"), None);
    assert_eq!(VariableType::Mat4.to_str(), "mat4");
}

#[test]
fn variable_tag_needs_a_type_and_a_name() {
    let good = leaf("Variable", vec![("type", "vec3"), ("name", "offset_dir")], "");
    let v = variable_tag(&good).unwrap();
    assert_eq!(v.name, "offset_dir");
    assert_eq!(v.vtype, VariableType::Vec3);
    let no_name = leaf("Variable", vec![("type", "vec3")], "");
    assert!(variable_tag(&no_name).is_none());
    let bad_type = leaf("Variable", vec![("type", "vec9"), ("name", "x")], "");
    assert!(variable_tag(&bad_type).is_none());
}

#[test]
fn param_tag_needs_type_name_and_editor_type() {
    let good = leaf(
        "Param",
        vec![("type", "float"), ("name", "shine"), ("editor_type", "slider")],
        "",
    );
    let p = param_tag(&good).unwrap();
    assert_eq!(p.name, "shine");
    assert_eq!(p.vtype, VariableType::Float);
    assert_eq!(p.editor_type.as_deref(), Some("slider"));
    let missing_editor = leaf("Param", vec![("type", "float"), ("name", "shine")], "");
    assert!(param_tag(&missing_editor).is_none());
}

#[test]
fn one_material_fills_the_parse() {
    let material = with_children(
        "Material",
        vec![("name", "shiny")],
        vec![
            leaf("Functions", vec![], "float helper() { return 1.0; }"),
            with_children(
                "VertexAttributes",
                vec![],
                vec![
                    leaf("Variable", vec![("type", "vec3"), ("name", "position")], ""),
                    leaf("Variable", vec![("type", "vec2"), ("name", "uv")], ""),
                ],
            ),
            with_children(
                "VertexModifier",
                vec![],
                vec![
                    with_children(
                        "Outputs",
                        vec![],
                        vec![leaf("Variable", vec![("type", "vec3"), ("name", "wobble")], "")],
                    ),
                    leaf("Code", vec![], "wobble = position;"),
                ],
            ),
            with_children(
                "Pass",
                vec![("BlendFunc", "Multiply")],
                vec![
                    with_children(
                        "Parameters",
                        vec![],
                        vec![leaf(
                            "Param",
                            vec![("type", "vec4"), ("name", "tint"), ("editor_type", "color")],
                            "",
                        )],
                    ),
                    leaf("Code", vec![], "color = tint;"),
                ],
            ),
        ],
    );
    let parsed = parse_material_elements(&vec![material]).unwrap();
    assert_eq!(parsed.name.as_deref(), Some("shiny"));
    assert_eq!(parsed.functions.as_deref(), Some("float helper() { return 1.0; }"));
    let attrs = parsed.vertex_attributes.unwrap();
    assert_eq!(attrs.len(), 2);
    assert_eq!(attrs[0].name, "position");
    assert_eq!(attrs[1].vtype, VariableType::Vec2);
    let modifier = parsed.vertex_modifier.unwrap();
    assert_eq!(modifier.outputs.len(), 1);
    assert_eq!(modifier.outputs[0].name, "wobble");
    assert_eq!(modifier.code, "wobble = position;");
    let passes = parsed.passes.unwrap();
    assert_eq!(passes.len(), 1);
    assert_eq!(passes[0].blend_func, BlendFunc::Multiply);
    assert_eq!(passes[0].parameters.len(), 1);
    assert_eq!(passes[0].parameters[0].name, "tint");
    assert_eq!(passes[0].code, "color = tint;");
}

#[test]
fn a_second_material_is_refused() {
    let a = with_children("Material", vec![], vec![]);
    let b = with_children("Material", vec![], vec![]);
    let r = parse_material_elements(&vec![a, b]);
    assert!(r.is_err());
    assert_eq!(
        r.err().unwrap().description(),
        "Only one material allowed per file."
    );
}

#[test]
fn an_unrecognized_element_is_refused() {
    let odd = with_children("Shader", vec![], vec![]);
    let r = parse_material_elements(&vec![odd]);
    assert!(r.is_err());
    assert_eq!(r.err().unwrap().description(), "Unrecognized element Shader");
}

#[test]
fn a_pass_without_a_blend_mode_adds() {
    let material = with_children(
        "Material",
        vec![],
        vec![with_children("Pass", vec![], vec![leaf("Code", vec![], "x")])],
    );
    let parsed = parse_material_elements(&vec![material]).unwrap();
    let passes = parsed.passes.unwrap();
    assert_eq!(passes[0].blend_func, BlendFunc::Add);
}

#[test]
fn the_opengl_generator_reports_unsupported_output() {
    let mut generator = OpenGLDataGenerator::new();
    let parsed = parse_material_elements(&vec![]).unwrap();
    assert!(generator.output_data(&parsed).is_err());
}

#[test]
fn the_compiler_reports_the_backend_failure() {
    assert_eq!(create_backend_data_generators().len(), 1);
    let mut compiler = MaterialCompiler::new();
    let parsed = parse_material_elements(&vec![]).unwrap();
    assert!(compiler.compile(&parsed).is_some());
}
