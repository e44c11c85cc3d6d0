//! The kinds of surface shader the renderer knows, and where the source of
//! each is found: fixed files for the built-in kinds, and the files that were
//! registered for each custom shader.
use vstd::prelude::*;

verus! {

/// A kind of surface shader.
#[derive(Debug, Clone, Copy, PartialEq, Eq, Hash, Structural)]
pub enum ShaderType {
    /// Basic diffuse lighting with texture
    Diffuse,
    /// Emissive shader for light-emitting objects (stars, etc.)
    Emission,
    /// Glossy/specular shader with shininess
    Glossy,
    /// Physically-based rendering shader
    PBR,
    /// Unlit shader (no lighting calculations)
    Unlit,
    /// Custom shader loaded from files; the number is its registration index
    Custom(usize),
}

/// The vertex and fragment source files of a built-in shader kind; `None`
/// for a custom shader.
pub open spec fn builtin_paths(shader_type: ShaderType) -> Option<(Seq<char>, Seq<char>)> {
    match shader_type {
        ShaderType::Diffuse => Some(
            (
                "data/glsl/diffuse_vertex_shader.glsl"@,
                "data/glsl/diffuse_fragment_shader.glsl"@,
            ),
        ),
        ShaderType::Emission => Some(
            (
                "data/glsl/emission_vertex_shader.glsl"@,
                "data/glsl/emission_fragment_shader.glsl"@,
            ),
        ),
        ShaderType::Glossy => Some(
            ("data/glsl/glossy_vertex_shader.glsl"@, "data/glsl/glossy_fragment_shader.glsl"@),
        ),
        ShaderType::PBR => Some(
            ("data/glsl/pbr_vertex_shader.glsl"@, "data/glsl/pbr_fragment_shader.glsl"@),
        ),
        ShaderType::Unlit => Some(
            ("data/glsl/unlit_vertex_shader.glsl"@, "data/glsl/unlit_fragment_shader.glsl"@),
        ),
        ShaderType::Custom(_) => None,
    }
}

/// The name that a built-in shader kind's files are called by.
pub open spec fn file_stem(shader_type: ShaderType) -> Option<Seq<char>> {
    match shader_type {
        ShaderType::Diffuse => Some("diffuse"@),
        ShaderType::Emission => Some("emission"@),
        ShaderType::Glossy => Some("glossy"@),
        ShaderType::PBR => Some("pbr"@),
        ShaderType::Unlit => Some("unlit"@),
        ShaderType::Custom(_) => None,
    }
}

/// Each built-in kind's sources are its own files,
/// `data/glsl/<stem>_vertex_shader.glsl` and
/// `data/glsl/<stem>_fragment_shader.glsl`, so no two kinds share a vertex
/// or a fragment file; a custom kind has no built-in files.
pub proof fn lemma_builtin_paths_are_own_files(a: ShaderType, b: ShaderType)
    ensures
        builtin_paths(a) == match file_stem(a) {
            Some(stem) => Some(
                (
                    "data/glsl/"@ + stem + "_vertex_shader.glsl"@,
                    "data/glsl/"@ + stem + "_fragment_shader.glsl"@,
                ),
            ),
            None => None::<(Seq<char>, Seq<char>)>,
        },
        builtin_paths(a) matches Some(pa) ==> builtin_paths(b) matches Some(pb) ==> a != b
            ==> pa.0 != pb.0 && pa.1 != pb.1,
{
    reveal_strlit("data/glsl/");
    reveal_strlit("_vertex_shader.glsl");
    reveal_strlit("_fragment_shader.glsl");
    reveal_strlit("diffuse");
    reveal_strlit("emission");
    reveal_strlit("glossy");
    reveal_strlit("pbr");
    reveal_strlit("unlit");
    lemma_own_files(a);
    lemma_own_files(b);
    assert("data/glsl/"@.len() == 10);
    assert("_vertex_shader.glsl"@.len() == 19);
    assert("_fragment_shader.glsl"@.len() == 21);
    assert("diffuse"@.len() == 7);
    assert("emission"@.len() == 8);
    assert("glossy"@.len() == 6);
    assert("pbr"@.len() == 3);
    assert("unlit"@.len() == 5);
    if a != b && file_stem(a) is Some && file_stem(b) is Some {
        let sa = file_stem(a)->0;
        let sb = file_stem(b)->0;
        assert(sa.len() != sb.len());
        let pa = builtin_paths(a)->0;
        let pb = builtin_paths(b)->0;
        assert(pa.0.len() == 29 + sa.len());
        assert(pb.0.len() == 29 + sb.len());
        assert(pa.1.len() == 31 + sa.len());
        assert(pb.1.len() == 31 + sb.len());
    }
}

/// `builtin_paths` of one kind spelled out from its stem.
proof fn lemma_own_files(k: ShaderType)
    ensures
        builtin_paths(k) == match file_stem(k) {
            Some(stem) => Some(
                (
                    "data/glsl/"@ + stem + "_vertex_shader.glsl"@,
                    "data/glsl/"@ + stem + "_fragment_shader.glsl"@,
                ),
            ),
            None => None::<(Seq<char>, Seq<char>)>,
        },
{
    reveal_strlit("data/glsl/");
    reveal_strlit("_vertex_shader.glsl");
    reveal_strlit("_fragment_shader.glsl");
    reveal_strlit("diffuse");
    reveal_strlit("emission");
    reveal_strlit("glossy");
    reveal_strlit("pbr");
    reveal_strlit("unlit");
    reveal_strlit("data/glsl/diffuse_vertex_shader.glsl");
    reveal_strlit("data/glsl/diffuse_fragment_shader.glsl");
    reveal_strlit("data/glsl/emission_vertex_shader.glsl");
    reveal_strlit("data/glsl/emission_fragment_shader.glsl");
    reveal_strlit("data/glsl/glossy_vertex_shader.glsl");
    reveal_strlit("data/glsl/glossy_fragment_shader.glsl");
    reveal_strlit("data/glsl/pbr_vertex_shader.glsl");
    reveal_strlit("data/glsl/pbr_fragment_shader.glsl");
    reveal_strlit("data/glsl/unlit_vertex_shader.glsl");
    reveal_strlit("data/glsl/unlit_fragment_shader.glsl");
    match k {
        ShaderType::Diffuse => {
            assert("data/glsl/diffuse_vertex_shader.glsl"@ =~= "data/glsl/"@ + "diffuse"@
                + "_vertex_shader.glsl"@);
            assert("data/glsl/diffuse_fragment_shader.glsl"@ =~= "data/glsl/"@ + "diffuse"@
                + "_fragment_shader.glsl"@);
        },
        ShaderType::Emission => {
            assert("data/glsl/emission_vertex_shader.glsl"@ =~= "data/glsl/"@ + "emission"@
                + "_vertex_shader.glsl"@);
            assert("data/glsl/emission_fragment_shader.glsl"@ =~= "data/glsl/"@ + "emission"@
                + "_fragment_shader.glsl"@);
        },
        ShaderType::Glossy => {
            assert("data/glsl/glossy_vertex_shader.glsl"@ =~= "data/glsl/"@ + "glossy"@
                + "_vertex_shader.glsl"@);
            assert("data/glsl/glossy_fragment_shader.glsl"@ =~= "data/glsl/"@ + "glossy"@
                + "_fragment_shader.glsl"@);
        },
        ShaderType::PBR => {
            assert("data/glsl/pbr_vertex_shader.glsl"@ =~= "data/glsl/"@ + "pbr"@
                + "_vertex_shader.glsl"@);
            assert("data/glsl/pbr_fragment_shader.glsl"@ =~= "data/glsl/"@ + "pbr"@
                + "_fragment_shader.glsl"@);
        },
        ShaderType::Unlit => {
            assert("data/glsl/unlit_vertex_shader.glsl"@ =~= "data/glsl/"@ + "unlit"@
                + "_vertex_shader.glsl"@);
            assert("data/glsl/unlit_fragment_shader.glsl"@ =~= "data/glsl/"@ + "unlit"@
                + "_fragment_shader.glsl"@);
        },
        ShaderType::Custom(_) => {},
    }
}

/// The vertex and fragment source files of a built-in shader kind; `None`
/// for a custom shader.
pub fn builtin_shader_paths(shader_type: ShaderType) -> (r: Option<(&'static str, &'static str)>)
    ensures
        match r {
            Some((v, f)) => builtin_paths(shader_type) == Some((v@, f@)),
            None => builtin_paths(shader_type) is None,
        },
{
    match shader_type {
        ShaderType::Diffuse => Some(
            ("data/glsl/diffuse_vertex_shader.glsl", "data/glsl/diffuse_fragment_shader.glsl"),
        ),
        ShaderType::Emission => Some(
            ("data/glsl/emission_vertex_shader.glsl", "data/glsl/emission_fragment_shader.glsl"),
        ),
        ShaderType::Glossy => Some(
            ("data/glsl/glossy_vertex_shader.glsl", "data/glsl/glossy_fragment_shader.glsl"),
        ),
        ShaderType::PBR => Some(
            ("data/glsl/pbr_vertex_shader.glsl", "data/glsl/pbr_fragment_shader.glsl"),
        ),
        ShaderType::Unlit => Some(
            ("data/glsl/unlit_vertex_shader.glsl", "data/glsl/unlit_fragment_shader.glsl"),
        ),
        ShaderType::Custom(_) => None,
    }
}

/// The built-in shader kinds, in the order the renderer compiles them at
/// start-up.
pub fn builtin_shader_types() -> (r: Vec<ShaderType>)
    ensures
        r@ == seq![
            ShaderType::Diffuse,
            ShaderType::Emission,
            ShaderType::Glossy,
            ShaderType::PBR,
            ShaderType::Unlit,
        ],
{
    let mut r: Vec<ShaderType> = Vec::new();
    r.push(ShaderType::Diffuse);
    r.push(ShaderType::Emission);
    r.push(ShaderType::Glossy);
    r.push(ShaderType::PBR);
    r.push(ShaderType::Unlit);
    assert(r@ =~= seq![
        ShaderType::Diffuse,
        ShaderType::Emission,
        ShaderType::Glossy,
        ShaderType::PBR,
        ShaderType::Unlit,
    ]);
    r
}

/// The source files of the custom shaders, in the order they were
/// registered; a custom shader's number is its index here.
pub struct ShaderCatalog {
    custom_shaders: Vec<(String, String)>,
}

impl View for ShaderCatalog {
    type V = Seq<(Seq<char>, Seq<char>)>;

    closed spec fn view(&self) -> Seq<(Seq<char>, Seq<char>)> {
        self.custom_shaders@.map_values(|p: (String, String)| (p.0@, p.1@))
    }
}

/// The source files of `shader_type`, given the custom shaders registered so
/// far.
pub open spec fn source_paths_in(
    custom: Seq<(Seq<char>, Seq<char>)>,
    shader_type: ShaderType,
) -> Option<(Seq<char>, Seq<char>)> {
    match shader_type {
        ShaderType::Custom(i) => if i < custom.len() {
            Some(custom[i as int])
        } else {
            None
        },
        _ => builtin_paths(shader_type),
    }
}

impl ShaderCatalog {
    /// No custom shaders.
    pub fn new() -> (r: ShaderCatalog)
        ensures
            r@ == Seq::<(Seq<char>, Seq<char>)>::empty(),
    {
        let r = ShaderCatalog { custom_shaders: Vec::new() };
        assert(r@ =~= Seq::<(Seq<char>, Seq<char>)>::empty());
        r
    }

    /// Registers a custom shader with the given source files and returns
    /// the kind that names it: `Custom` with the next free number.
    pub fn add_custom_shader(&mut self, vertex_path: &str, fragment_path: &str) -> (r: ShaderType)
        ensures
            r == ShaderType::Custom(old(self)@.len() as usize),
            final(self)@ == old(self)@.push((vertex_path@, fragment_path@)),
    {
        let index = self.custom_shaders.len();
        let vertex = vertex_path.to_owned();
        let fragment = fragment_path.to_owned();
        self.custom_shaders.push((vertex, fragment));
        assert(self@ =~= old(self)@.push((vertex_path@, fragment_path@)));
        ShaderType::Custom(index)
    }

    /// The vertex and fragment source files of `shader_type`; `None` for a
    /// custom number that was never registered.
    pub fn source_paths(&self, shader_type: ShaderType) -> (r: Option<(&str, &str)>)
        ensures
            match r {
                Some((v, f)) => source_paths_in(self@, shader_type) == Some((v@, f@)),
                None => source_paths_in(self@, shader_type) is None,
            },
    {
        match shader_type {
            ShaderType::Custom(index) => {
                if index < self.custom_shaders.len() {
                    let entry = &self.custom_shaders[index];
                    Some((entry.0.as_str(), entry.1.as_str()))
                } else {
                    None
                }
            },
            _ => builtin_shader_paths(shader_type),
        }
    }
}

/// Registering a custom shader gives a kind whose source files are exactly
/// the ones registered, and leaves the files of every other kind as they
/// were.
pub proof fn lemma_registered_paths(
    custom: Seq<(Seq<char>, Seq<char>)>,
    vertex: Seq<char>,
    fragment: Seq<char>,
    other: ShaderType,
)
    requires
        custom.len() < usize::MAX,
    ensures
        source_paths_in(custom.push((vertex, fragment)), ShaderType::Custom(custom.len() as usize))
            == Some((vertex, fragment)),
        other != ShaderType::Custom(custom.len() as usize) ==> source_paths_in(
            custom.push((vertex, fragment)),
            other,
        ) == source_paths_in(custom, other),
{
}

} // verus!
