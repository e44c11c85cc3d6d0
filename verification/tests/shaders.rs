use inertia::shaders::{builtin_shader_paths, builtin_shader_types, ShaderCatalog, ShaderType};

#[test]
fn builtin_paths() {
    assert_eq!(
        builtin_shader_paths(ShaderType::Diffuse),
        Some(("data/glsl/diffuse_vertex_shader.glsl", "data/glsl/diffuse_fragment_shader.glsl"))
    );
    assert_eq!(
        builtin_shader_paths(ShaderType::Unlit),
        Some(("data/glsl/unlit_vertex_shader.glsl", "data/glsl/unlit_fragment_shader.glsl"))
    );
    assert_eq!(builtin_shader_paths(ShaderType::Custom(0)), None);
}

#[test]
fn builtin_types_in_start_up_order() {
    assert_eq!(
        builtin_shader_types(),
        vec![
            ShaderType::Diffuse,
            ShaderType::Emission,
            ShaderType::Glossy,
            ShaderType::PBR,
            ShaderType::Unlit
        ]
    );
}

#[test]
fn custom_shaders_are_numbered_in_order() {
    let mut catalog = ShaderCatalog::new();
    assert_eq!(catalog.source_paths(ShaderType::Custom(0)), None);
    let first = catalog.add_custom_shader("a.vert", "a.frag");
    let second = catalog.add_custom_shader("b.vert", "b.frag");
    assert_eq!(first, ShaderType::Custom(0));
    assert_eq!(second, ShaderType::Custom(1));
    assert_eq!(catalog.source_paths(first), Some(("a.vert", "a.frag")));
    assert_eq!(catalog.source_paths(second), Some(("b.vert", "b.frag")));
    assert_eq!(catalog.source_paths(ShaderType::Custom(2)), None);
    assert_eq!(
        catalog.source_paths(ShaderType::Glossy),
        Some(("data/glsl/glossy_vertex_shader.glsl", "data/glsl/glossy_fragment_shader.glsl"))
    );
}
