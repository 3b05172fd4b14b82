//! The material file's structure: typed variables, vertex modifiers and
//! render passes, read out of a markup element tree.
//!
//! Decoding the markup text itself is a collaborator's job; it hands over
//! an element tree ([`MarkupElement`]), and this module walks it into a
//! [`MaterialParseData`].

use vstd::prelude::*;

verus! {

/// How a pass blends onto the target.
#[derive(Clone, Copy, PartialEq, Eq, Structural, Debug)]
pub enum BlendFunc {
    Add,
    Subtract,
    Multiply,
}

/// The keyword naming a blend function.
pub open spec fn blend_func_name(b: BlendFunc) -> Seq<char> {
    match b {
        BlendFunc::Add => "Add"@,
        BlendFunc::Subtract => "Subtract"@,
        BlendFunc::Multiply => "Multiply"@,
    }
}

impl BlendFunc {
    /// The keyword naming this blend function.
    pub fn to_str(&self) -> (name: &'static str)
        ensures
            name@ == blend_func_name(*self),
    {
        match *self {
            BlendFunc::Add => "Add",
            BlendFunc::Subtract => "Subtract",
            BlendFunc::Multiply => "Multiply",
        }
    }

    /// The blend function a keyword names, if any.
    pub fn from_str(s: &str) -> (result: Option<BlendFunc>)
        ensures
            result matches Some(b) ==> s@ == blend_func_name(b),
            result is None ==> s@ != "Add"@ && s@ != "Subtract"@ && s@ != "Multiply"@,
    {
        let owned = s.to_owned();
        if owned == "Add".to_owned() {
            Some(BlendFunc::Add)
        } else if owned == "Subtract".to_owned() {
            Some(BlendFunc::Subtract)
        } else if owned == "Multiply".to_owned() {
            Some(BlendFunc::Multiply)
        } else {
            None
        }
    }
}

/// The type of a material variable or parameter.
#[derive(Clone, Copy, PartialEq, Eq, Structural, Debug)]
pub enum VariableType {
    Float,
    Vec2,
    Vec3,
    Vec4,
    Mat3,
    Mat4,
}

/// The keyword naming a variable type.
pub open spec fn variable_type_name(t: VariableType) -> Seq<char> {
    match t {
        VariableType::Float => "float"@,
        VariableType::Vec2 => "vec2"@,
        VariableType::Vec3 => "vec3"@,
        VariableType::Vec4 => "vec4"@,
        VariableType::Mat3 => "mat3"@,
        VariableType::Mat4 => "mat4"@,
    }
}

/// The variable type a keyword names, if any.
pub open spec fn variable_type_of(s: Seq<char>) -> Option<VariableType> {
    if s == "float"@ {
        Some(VariableType::Float)
    } else if s == "vec2"@ {
        Some(VariableType::Vec2)
    } else if s == "vec3"@ {
        Some(VariableType::Vec3)
    } else if s == "vec4"@ {
        Some(VariableType::Vec4)
    } else if s == "mat3"@ {
        Some(VariableType::Mat3)
    } else if s == "mat4"@ {
        Some(VariableType::Mat4)
    } else {
        None
    }
}

impl VariableType {
    /// The keyword naming this type.
    pub fn to_str(&self) -> (name: &'static str)
        ensures
            name@ == variable_type_name(*self),
    {
        match *self {
            VariableType::Float => "float",
            VariableType::Vec2 => "vec2",
            VariableType::Vec3 => "vec3",
            VariableType::Vec4 => "vec4",
            VariableType::Mat3 => "mat3",
            VariableType::Mat4 => "mat4",
        }
    }

    /// The type a keyword names, if any.
    pub fn from_str(s: &str) -> (result: Option<VariableType>)
        ensures
            result == variable_type_of(s@),
    {
        let owned = s.to_owned();
        if owned == "float".to_owned() {
            Some(VariableType::Float)
        } else if owned == "vec2".to_owned() {
            Some(VariableType::Vec2)
        } else if owned == "vec3".to_owned() {
            Some(VariableType::Vec3)
        } else if owned == "vec4".to_owned() {
            Some(VariableType::Vec4)
        } else if owned == "mat3".to_owned() {
            Some(VariableType::Mat3)
        } else if owned == "mat4".to_owned() {
            Some(VariableType::Mat4)
        } else {
            proof {
                assert(variable_type_of(s@) is None);
            }
            None
        }
    }
}

/// A named, typed material variable.
pub struct Variable {
    pub name: String,
    pub vtype: VariableType,
}

/// The vertex attributes a material consumes.
pub struct VertexAttributeData {
    pub attribs: Vec<String>,
}

/// A vertex modifier: its output variables and its code.
pub struct VertexModifierData {
    pub outputs: Vec<Variable>,
    pub code: String,
}

/// One editable material parameter.
pub struct Param {
    pub vtype: VariableType,
    pub name: String,
    pub editor_type: Option<String>,
}

/// One render pass: blend mode, parameters, code.
pub struct MaterialPassData {
    pub blend_func: BlendFunc,
    pub parameters: Vec<Param>,
    pub code: String,
}

/// Everything read out of one material file.
pub struct MaterialParseData {
    pub name: Option<String>,
    pub functions: Option<String>,
    pub vertex_attributes: Option<Vec<Variable>>,
    pub vertex_modifier: Option<VertexModifierData>,
    pub passes: Option<Vec<MaterialPassData>>,
}

impl MaterialParseData {
    /// An empty parse, everything absent.
    pub fn new() -> (data: MaterialParseData)
        ensures
            data.name is None,
            data.functions is None,
            data.vertex_attributes is None,
            data.vertex_modifier is None,
            data.passes is None,
    {
        MaterialParseData {
            name: None,
            functions: None,
            vertex_attributes: None,
            vertex_modifier: None,
            passes: None,
        }
    }
}

/// A material parsing error.
#[derive(Debug)]
pub struct ParseError {
    description: String,
}

impl ParseError {
    /// An error bearing the given description.
    pub fn new(description: &str) -> (e: ParseError)
        ensures
            e.spec_description() == description@,
    {
        ParseError { description: description.to_owned() }
    }

    /// The error's description, for contracts.
    pub closed spec fn spec_description(&self) -> Seq<char> {
        self.description@
    }

    /// The error's description.
    pub fn description(&self) -> (d: &String)
        ensures
            d@ == self.spec_description(),
    {
        &self.description
    }
}

/// One element of a markup tree: its tag name, its attributes in
/// document order, its child elements, and its text content.
pub struct MarkupElement {
    pub name: String,
    pub attributes: Vec<(String, String)>,
    pub children: Vec<MarkupElement>,
    pub text: String,
}

/// The first attribute value stored under `key`, if any.
pub open spec fn attr_value(attributes: Seq<(String, String)>, key: Seq<char>) -> Option<Seq<char>>
    decreases attributes.len(),
{
    if attributes.len() == 0 {
        None
    } else if attributes[0].0@ == key {
        Some(attributes[0].1@)
    } else {
        attr_value(attributes.skip(1), key)
    }
}

/// The position of the first child element named `name`, if any.
pub open spec fn child_index(children: Seq<MarkupElement>, name: Seq<char>) -> Option<int>
    decreases children.len(),
{
    if children.len() == 0 {
        None
    } else if children[0].name@ == name {
        Some(0)
    } else {
        match child_index(children.skip(1), name) {
            Some(i) => Some(i + 1),
            None => None,
        }
    }
}

impl MarkupElement {
    /// The first attribute value stored under `key`, if any.
    pub fn get_attribute(&self, key: &str) -> (result: Option<&String>)
        ensures
            result matches Some(v) ==> attr_value(self.attributes@, key@) == Some(v@),
            result is None ==> attr_value(self.attributes@, key@) is None,
    {
        let mut i: usize = 0;
        proof {
            assert(self.attributes@.skip(0) =~= self.attributes@);
        }
        while i < self.attributes.len()
            invariant
                i <= self.attributes@.len(),
                attr_value(self.attributes@, key@) == attr_value(
                    self.attributes@.skip(i as int),
                    key@,
                ),
            decreases self.attributes@.len() - i,
        {
            proof {
                assert(self.attributes@.skip(i as int)[0] == self.attributes@[i as int]);
                assert(self.attributes@.skip(i as int).skip(1) =~= self.attributes@.skip(i + 1));
            }
            if self.attributes[i].0 == key.to_owned() {
                return Some(&self.attributes[i].1);
            }
            i = i + 1;
        }
        proof {
            assert(self.attributes@.skip(self.attributes@.len() as int) =~= Seq::<
                (String, String),
            >::empty());
        }
        None
    }

    /// The first child element named `name`, if any.
    pub fn get_child(&self, name: &str) -> (result: Option<&MarkupElement>)
        ensures
            result matches Some(c) ==> {
                &&& child_index(self.children@, name@) matches Some(i)
                &&& 0 <= i < self.children@.len()
                &&& *c == self.children@[child_index(self.children@, name@).unwrap()]
            },
            result is None ==> child_index(self.children@, name@) is None,
    {
        let mut i: usize = 0;
        while i < self.children.len()
            invariant
                i <= self.children@.len(),
                forall|k: int| 0 <= k < i ==> (#[trigger] self.children@[k]).name@ != name@,
            decreases self.children@.len() - i,
        {
            if self.children[i].name == name.to_owned() {
                proof {
                    lemma_child_index_first(self.children@, name@, i as int);
                }
                return Some(&self.children[i]);
            }
            i = i + 1;
        }
        proof {
            lemma_child_index_none(self.children@, name@);
        }
        None
    }
}

/// If the first `i` children bear other names and child `i` bears
/// `name`, the first match is at `i`.
proof fn lemma_child_index_first(children: Seq<MarkupElement>, name: Seq<char>, i: int)
    requires
        0 <= i < children.len(),
        children[i].name@ == name,
        forall|k: int| 0 <= k < i ==> (#[trigger] children[k]).name@ != name,
    ensures
        child_index(children, name) == Some(i),
    decreases i,
{
    if i == 0 {
    } else {
        assert(children.skip(1)[i - 1] == children[i]);
        assert forall|k: int| 0 <= k < i - 1 implies (#[trigger] children.skip(1)[k]).name@
            != name by {
            assert(children.skip(1)[k] == children[k + 1]);
        }
        lemma_child_index_first(children.skip(1), name, i - 1);
    }
}

/// If no child bears `name`, there is no first match.
proof fn lemma_child_index_none(children: Seq<MarkupElement>, name: Seq<char>)
    requires
        forall|k: int| 0 <= k < children.len() ==> (#[trigger] children[k]).name@ != name,
    ensures
        child_index(children, name) is None,
    decreases children.len(),
{
    if children.len() > 0 {
        assert forall|k: int| 0 <= k < children.skip(1).len() implies (
        #[trigger] children.skip(1)[k]).name@ != name by {
            assert(children.skip(1)[k] == children[k + 1]);
        }
        lemma_child_index_none(children.skip(1), name);
    }
}

/// Reads a typed variable out of an element: its `type` attribute must
/// name a variable type and a `name` attribute must be present.
pub fn variable_tag(element: &MarkupElement) -> (result: Option<Variable>)
    ensures
        result matches Some(v) ==> {
            &&& attr_value(element.attributes@, "type"@) == Some(variable_type_name(v.vtype))
            &&& attr_value(element.attributes@, "name"@) == Some(v.name@)
        },
        result is None ==> (match attr_value(element.attributes@, "type"@) {
            Some(t) => variable_type_of(t) is None || attr_value(element.attributes@, "name"@)
                is None,
            None => true,
        }),
{
    let vartype: Option<VariableType> = match element.get_attribute("type") {
        Some(x) => VariableType::from_str(x.as_str()),
        None => None,
    };
    let name: Option<String> = match element.get_attribute("name") {
        Some(x) => Some(x.clone()),
        None => None,
    };
    match (vartype, name) {
        (Some(vtype), Some(n)) => Some(Variable { vtype, name: n }),
        _ => None,
    }
}

/// Reads an editable parameter out of an element: `type` must name a
/// variable type, and `name` and `editor_type` must be present.
pub fn param_tag(element: &MarkupElement) -> (result: Option<Param>)
    ensures
        result matches Some(p) ==> {
            &&& attr_value(element.attributes@, "type"@) == Some(variable_type_name(p.vtype))
            &&& attr_value(element.attributes@, "name"@) == Some(p.name@)
            &&& p.editor_type matches Some(et) && attr_value(element.attributes@, "editor_type"@)
                == Some(et@)
        },
        result is None ==> (match attr_value(element.attributes@, "type"@) {
            Some(t) => variable_type_of(t) is None || attr_value(element.attributes@, "name"@)
                is None || attr_value(element.attributes@, "editor_type"@) is None,
            None => true,
        }),
{
    let vtype: Option<VariableType> = match element.get_attribute("type") {
        Some(x) => VariableType::from_str(x.as_str()),
        None => None,
    };
    let name: Option<String> = match element.get_attribute("name") {
        Some(x) => Some(x.clone()),
        None => None,
    };
    let editor_type: Option<String> = match element.get_attribute("editor_type") {
        Some(x) => Some(x.clone()),
        None => None,
    };
    match (vtype, name, editor_type) {
        (Some(vtype), Some(n), Some(et)) => Some(
            Param { vtype, name: n, editor_type: Some(et) },
        ),
        _ => None,
    }
}

/// Reads every well-formed `Variable` child of an element, in document
/// order, dropping children that do not parse.
pub fn get_vars(element: &MarkupElement) -> (vars: Vec<Variable>)
    ensures
        vars@.len() <= element.children@.len(),
{
    let mut vars: Vec<Variable> = Vec::new();
    let mut i: usize = 0;
    while i < element.children.len()
        invariant
            i <= element.children@.len(),
            vars@.len() <= i,
        decreases element.children@.len() - i,
    {
        let child = &element.children[i];
        if child.name == "Variable".to_owned() {
            match variable_tag(child) {
                Some(v) => vars.push(v),
                None => (),
            }
        }
        i = i + 1;
    }
    vars
}

/// Fills a parse from a `Material` element: its `Functions` child's text,
/// its `VertexAttributes` child's variables, its `VertexModifier` child's
/// outputs and code, and its `Pass` child (blend mode defaulting to
/// additive, parameters, code).
pub fn do_material(element: &MarkupElement, parse_data: &mut MaterialParseData)
    ensures
        final(parse_data).name == old(parse_data).name,
        final(parse_data).functions == (match child_index(element.children@, "Functions"@) {
            Some(i) => Some(element.children@[i].text),
            None => old(parse_data).functions,
        }),
        child_index(element.children@, "VertexAttributes"@) is None ==> final(parse_data).vertex_attributes == old(parse_data).vertex_attributes,
        child_index(element.children@, "VertexAttributes"@) is Some ==> final(parse_data).vertex_attributes is Some,
        child_index(element.children@, "VertexModifier"@) is None ==> final(parse_data).vertex_modifier == old(parse_data).vertex_modifier,
        child_index(element.children@, "VertexModifier"@) is Some ==> final(parse_data).vertex_modifier is Some,
        child_index(element.children@, "Pass"@) is None ==> final(parse_data).passes == old(parse_data).passes,
        child_index(element.children@, "Pass"@) is Some ==> (final(parse_data).passes matches Some(
            ps,
        ) && ps@.len() == 1),
{
    match element.get_child("Functions") {
        Some(e) => {
            parse_data.functions = Some(e.text.clone());
        },
        None => (),
    }
    match element.get_child("VertexAttributes") {
        Some(e) => {
            let vars = get_vars(e);
            parse_data.vertex_attributes = Some(vars);
        },
        None => (),
    }
    match element.get_child("VertexModifier") {
        Some(e) => {
            let outputs: Vec<Variable> = match e.get_child("Outputs") {
                Some(x) => get_vars(x),
                None => Vec::new(),
            };
            let code: String = match e.get_child("Code") {
                Some(x) => x.text.clone(),
                None => String::new(),
            };
            parse_data.vertex_modifier = Some(VertexModifierData { outputs, code });
        },
        None => (),
    }
    match element.get_child("Pass") {
        Some(e) => {
            let blend_func: BlendFunc = match e.get_attribute("BlendFunc") {
                Some(x) => match BlendFunc::from_str(x.as_str()) {
                    Some(b) => b,
                    None => BlendFunc::Add,
                },
                None => BlendFunc::Add,
            };
            let mut params: Vec<Param> = Vec::new();
            match e.get_child("Parameters") {
                Some(x) => {
                    let mut i: usize = 0;
                    while i < x.children.len()
                        invariant
                            i <= x.children@.len(),
                        decreases x.children@.len() - i,
                    {
                        let child = &x.children[i];
                        if child.name == "Param".to_owned() {
                            match param_tag(child) {
                                Some(p) => params.push(p),
                                None => (),
                            }
                        }
                        i = i + 1;
                    }
                },
                None => (),
            }
            let code: String = match e.get_child("Code") {
                Some(x) => x.text.clone(),
                None => String::new(),
            };
            let mut passes: Vec<MaterialPassData> = Vec::new();
            passes.push(MaterialPassData { blend_func, parameters: params, code });
            parse_data.passes = Some(passes);
        },
        None => (),
    }
}

/// Parses the top-level elements of one material file: exactly one
/// `Material` element is allowed, whose `name` attribute and children
/// fill the parse. Fails on a second material or an unrecognized
/// top-level element.
pub fn parse_material_elements(roots: &Vec<MarkupElement>) -> (result: Result<
    MaterialParseData,
    ParseError,
>)
    ensures
        result is Ok <==> roots@.len() == 0 || (roots@.len() == 1 && roots@[0].name@
            == "Material"@),
        result matches Ok(data) ==> {
            &&& roots@.len() == 0 ==> data.name is None && data.functions is None
                && data.vertex_attributes is None && data.vertex_modifier is None
                && data.passes is None
            &&& roots@.len() == 1 ==> (match attr_value(roots@[0].attributes@, "name"@) {
                Some(nm) => data.name matches Some(n) && n@ == nm,
                None => data.name is None,
            })
        },
{
    let mut parse_data = MaterialParseData::new();
    let mut found_material = false;
    let mut i: usize = 0;
    while i < roots.len()
        invariant
            i <= roots@.len(),
            forall|k: int| 0 <= k < i ==> (#[trigger] roots@[k]).name@ == "Material"@,
            found_material ==> i >= 1,
            i > 0 ==> found_material,
            i <= 1,
            i == 0 ==> parse_data.name is None && parse_data.functions is None
                && parse_data.vertex_attributes is None && parse_data.vertex_modifier is None
                && parse_data.passes is None,
            i == 1 ==> (match attr_value(roots@[0].attributes@, "name"@) {
                Some(nm) => parse_data.name matches Some(n) && n@ == nm,
                None => parse_data.name is None,
            }),
        decreases roots@.len() - i,
    {
        let element = &roots[i];
        if element.name == "Material".to_owned() {
            if found_material {
                return Err(ParseError::new("Only one material allowed per file."));
            }
            match element.get_attribute("name") {
                Some(x) => {
                    parse_data.name = Some(x.clone());
                },
                None => (),
            }
            do_material(element, &mut parse_data);
            found_material = true;
        } else {
            let mut message: String = "Unrecognized element ".to_owned();
            message.append(element.name.as_str());
            return Err(ParseError::new(message.as_str()));
        }
        i = i + 1;
    }
    Ok(parse_data)
}


/// Turns a parsed material into backend-specific bytes (the OpenGL
/// generator would output its shading-language code).
pub trait BackendDataGenerator {
    fn output_data(&mut self, parse: &MaterialParseData) -> Result<Vec<u8>, String>;
}

/// The OpenGL material generator. Generation is not supported yet: it
/// reports an error for every input rather than guessing at output.
pub struct OpenGLDataGenerator;

impl OpenGLDataGenerator {
    pub fn new() -> OpenGLDataGenerator {
        OpenGLDataGenerator
    }
}

impl BackendDataGenerator for OpenGLDataGenerator {
    fn output_data(&mut self, parse: &MaterialParseData) -> Result<Vec<u8>, String> {
        Err("material output is not supported by this backend".to_owned())
    }
}

/// Every registered material generator. Only the OpenGL one exists.
pub fn create_backend_data_generators() -> (generators: Vec<OpenGLDataGenerator>)
    ensures
        generators@.len() == 1,
{
    let mut generators: Vec<OpenGLDataGenerator> = Vec::new();
    generators.push(OpenGLDataGenerator::new());
    generators
}

/// Compiles parsed materials into backend data, one output per backend.
pub struct MaterialCompiler {
    backends: Vec<OpenGLDataGenerator>,
}

impl MaterialCompiler {
    pub fn new() -> MaterialCompiler {
        MaterialCompiler { backends: create_backend_data_generators() }
    }

    /// Compiles one parsed material. Returns the failure message while
    /// no backend supports output.
    pub fn compile(&mut self, parse_data: &MaterialParseData) -> (failure: Option<String>) {
        let mut i: usize = 0;
        while i < self.backends.len()
            decreases self.backends@.len() - i,
        {
            let produced = self.backends[i].output_data(parse_data);
            match produced {
                Ok(_) => (),
                Err(message) => {
                    return Some(message);
                },
            }
            i = i + 1;
        }
        None
    }
}

} // verus!
