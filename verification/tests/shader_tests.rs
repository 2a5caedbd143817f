use syrillian::shader::{
    generate_default, generate_post_process, rewrite_bind_groups, BindGroup, BindGroupMap, BuiltinShaderSources,
    PipelineStage, PolygonMode, PrimitiveTopology, PushConstants, Shader, ShaderCode, ShaderGen, ShaderSnippets,
    VertexLayout,
};
use syrillian::store::{HandleName, Store, StoreType, StoreTypeName, H};

fn snippets() -> ShaderSnippets {
    ShaderSnippets {
        post_process_header: "PPH".to_string(),
        default_header: "DH".to_string(),
        light_group: "LG @group(3)".to_string(),
        base_group: "BG @group(0)".to_string(),
        model_group: "MG @group(1)".to_string(),
        material_group: "MAT @group(2)".to_string(),
        default_vertex_3d: "DV".to_string(),
        post_process_vertex: "PV".to_string(),
    }
}

fn identity_map() -> BindGroupMap {
    BindGroupMap { render: 0, model: None, material: None, light: None, shadow: None, post_process: None }
}

fn custom(code: &str) -> Shader {
    Shader::custom("c", code, PolygonMode::Line, PrimitiveTopology::LineList, VertexLayout::Empty, PushConstants::Nothing, false)
}

#[test]
fn shader_code_accessors() {
    let f = ShaderCode::Fragment("frag".to_string());
    assert!(f.is_only_fragment_shader());
    assert_eq!(f.code(), "frag");
    let full = ShaderCode::Full("full".to_string());
    assert!(!full.is_only_fragment_shader());
    assert_eq!(full.code(), "full");
}

#[test]
fn shader_kinds() {
    let d = Shader::new_default("d", "x");
    assert_eq!(d.stage(), PipelineStage::Default);
    assert_eq!(d.polygon_mode(), PolygonMode::Fill);
    assert_eq!(d.topology(), PrimitiveTopology::TriangleList);
    assert!(!d.is_custom() && !d.is_post_process() && !d.has_shadow_transparency());
    let p = Shader::new_post_process("p", "y");
    assert_eq!(p.stage(), PipelineStage::PostProcess);
    assert!(p.is_post_process());
    let c = Shader::custom("t", "z", PolygonMode::Fill, PrimitiveTopology::TriangleList, VertexLayout::Text, PushConstants::Text, true);
    assert!(c.is_custom() && c.has_shadow_transparency());
    assert_eq!(c.push_constant_ranges(), PushConstants::Text);
    assert_eq!(c.vertex_buffers(), VertexLayout::Text);
    assert_eq!(d.push_constant_ranges(), PushConstants::Nothing);
    assert_eq!(c.name(), "t");
}

#[test]
fn set_code_keeps_the_rest() {
    let mut s = Shader::new_fragment("n", "old");
    assert!(s.code().is_only_fragment_shader());
    s.set_code("new".to_string());
    assert!(!s.code().is_only_fragment_shader());
    assert_eq!(s.code().code(), "new");
    assert_eq!(s.name(), "n");
    s.set_fragment_code("frag".to_string());
    assert!(s.code().is_only_fragment_shader());
    assert_eq!(s.code().code(), "frag");
}

#[test]
fn needs_bgl_reads_use_lines() {
    let d = Shader::new_default("d", "");
    assert!(d.needs_bgl(BindGroup::Shadow));
    assert!(d.needs_bgl(BindGroup::Empty));
    let c = custom("#use model\n  // #use   light  \r\nfn main() {}\n");
    assert!(c.needs_bgl(BindGroup::Render));
    assert!(c.needs_bgl(BindGroup::Model));
    assert!(c.needs_bgl(BindGroup::Light));
    assert!(!c.needs_bgl(BindGroup::Material));
    assert!(!c.needs_bgl(BindGroup::Shadow));
    assert!(!c.needs_bgl(BindGroup::PostProcess));
    assert!(!custom("#usemodel").needs_bgl(BindGroup::Model));
}

#[test]
fn layouts_fill_gaps_with_empty_groups() {
    let c = custom("#use light\n");
    assert_eq!(c.solid_layout(), vec![BindGroup::Render, BindGroup::Empty, BindGroup::Empty, BindGroup::Light]);
    assert_eq!(custom("").solid_layout(), vec![BindGroup::Render]);
    assert_eq!(custom("#use shadow").shadow_layout(), Some(vec![BindGroup::Render]));
    let d = Shader::new_default("d", "");
    assert_eq!(
        d.solid_layout(),
        vec![BindGroup::Render, BindGroup::Model, BindGroup::Material, BindGroup::Light, BindGroup::Shadow]
    );
    let p = Shader::new_post_process("p", "");
    assert_eq!(p.solid_layout(), vec![BindGroup::Render, BindGroup::PostProcess]);
    assert_eq!(p.shadow_layout(), None);
}

#[test]
fn rewrite_moves_groups() {
    let map = BindGroupMap { render: 1, model: Some(0), material: None, light: Some(12), shadow: None, post_process: None };
    let out = rewrite_bind_groups("@group(0) @group(1) @group(3) @group(2)".to_string(), &map);
    // group 0 becomes 1 first, then every group 1 (both) becomes 0
    assert_eq!(out, "@group(0) @group(0) @group(12) @group(2)");
    assert_eq!(rewrite_bind_groups("none".to_string(), &identity_map()), "none");
}

#[test]
fn generate_default_builtin() {
    let sn = snippets();
    let code = ShaderCode::Fragment("FS".to_string());
    let out = generate_default(&code, false, true, &identity_map(), &sn);
    assert_eq!(out, "BG @group(0)\nDH\nMG @group(1)\nMAT @group(2)\nLG @group(3)\nDV\nFS");
    let full = ShaderCode::Full("FULL".to_string());
    let out = generate_default(&full, false, false, &identity_map(), &sn);
    assert_eq!(out, "BG @group(0)\nDH\nMG @group(1)\nMAT @group(2)\nFULL");
}

#[test]
fn generate_default_custom_expands_uses() {
    let sn = snippets();
    let code = ShaderCode::Full("#use model\n#use bogus\nbody\r\n#use default_vertex".to_string());
    let map = BindGroupMap { render: 0, model: Some(5), material: None, light: None, shadow: None, post_process: None };
    let out = generate_default(&code, true, false, &map, &sn);
    assert_eq!(out, "BG @group(0)\nMG @group(5)\n\nbody\nDH\n");
}

#[test]
fn generate_post_process_source() {
    let sn = snippets();
    let out = generate_post_process(&ShaderCode::Fragment("F".to_string()), &identity_map(), &sn);
    assert_eq!(out, "BG @group(0)\nPPH\nPV\nF");
    let shader = Shader::new_post_process("p", "X");
    let map = identity_map();
    assert_eq!(ShaderGen::new(&shader, &map).generate(&sn, true), "BG @group(0)\nPPH\nX");
    assert_eq!(shader.gen_code(&map, &sn, true), "BG @group(0)\nPPH\nX");
}

#[test]
fn builtin_shaders_populate() {
    let src = BuiltinShaderSources {
        fallback_3d: "a".to_string(),
        dim2: "b".to_string(),
        dim3: "c".to_string(),
        text_2d: "d".to_string(),
        text_3d: "e".to_string(),
        fullscreen_copy: "f".to_string(),
        skybox_cubemap: "g".to_string(),
        debug_edges: "h".to_string(),
        debug_vertex_normals: "i".to_string(),
        debug_lines: "j".to_string(),
        debug_text_2d_geometry: "k".to_string(),
        debug_text_3d_geometry: "l".to_string(),
        debug_light: "m".to_string(),
    };
    let mut store: Store<Shader> = Store::empty();
    Shader::populate(&mut store, &src);
    assert_eq!(store.len(), 13);
    assert_eq!(store.get(H::dim3()).name(), "3D Default Pipeline");
    assert!(store.get(H::dim3()).code().is_only_fragment_shader());
    assert!(store.get(H::text_3d()).has_shadow_transparency());
    assert!(store.get(H::post_process()).is_post_process());
    assert_eq!(store.get(H::debug_light()).push_constant_ranges(), PushConstants::VertexIndex);
    assert_eq!(store.find_by_name("Line Debug").map(|h| h.id()), Some(9));
    assert!(Shader::is_builtin(H::new(12)));
    assert!(!Shader::is_builtin(H::new(13)));
    assert_eq!(StoreTypeName::name(store.get(H::new(0))), "Fallback");
    match Shader::ident_fmt(H::new(9)) {
        HandleName::Static(s) => assert_eq!(s, "Debug Rays Shader"),
        HandleName::Id(_) => panic!("expected a static name"),
    }
    assert_eq!(<Shader as StoreType>::name(), "Shader");
}
