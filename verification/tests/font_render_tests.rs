use syrillian::atlas::{blit_rgb_glyph, glyph_upload_range, missing_glyphs};
use syrillian::cache::Cache;
use syrillian::texture::Texture;
use syrillian::font::{id_from_atlas, Font, DEFAULT_ATLAS_SIZE};
use syrillian::render::{
    choose_present_mode, configure_surface, default_shader_id, next_uniform_index, resize_dimensions, DebugRenderer,
    ErrorReporter, MaterialError, PointLightUniformIndex, PresentMode, RenderError, RenderPipelineBuilder,
    RenderUniformIndex, ShaderUniformIndex, SurfaceError,
};
use syrillian::shader::PolygonMode;
use syrillian::store::Store;
use syrillian::texture::TextureFormat;

#[test]
fn atlas_positions() {
    assert_eq!(id_from_atlas('1'), (0, 0));
    assert_eq!(id_from_atlas('0'), (9, 0));
    assert_eq!(id_from_atlas('a'), (0, 1));
    assert_eq!(id_from_atlas('D'), (9, 3));
    assert_eq!(id_from_atlas('\\'), (1, 8));
    assert_eq!(id_from_atlas('"'), (4, 8));
    assert_eq!(id_from_atlas(' '), (4, 9));
    assert_eq!(id_from_atlas('~'), (3, 9));
    assert_eq!(id_from_atlas('é'), (0, 0));
}

#[test]
fn fonts_load_once_per_family() {
    let mut store: Store<Font> = Store::empty();
    Font::populate(&mut store, vec![1, 2]);
    assert_eq!(store.find("Arial").map(|h| h.id()), Some(0));
    assert_eq!(store.get(syrillian::store::H::default_font()).atlas_em_px, DEFAULT_ATLAS_SIZE);
    let a = store.load_sized("Mono", Some(64), vec![3]);
    assert_eq!(a.id(), 1);
    let b = store.load_sized("Mono", None, vec![4]);
    assert_eq!(b.id(), 1);
    assert_eq!(store.len(), 2);
    assert_eq!(store.get(b).atlas_em_px, 64);
    assert_eq!(store.get(b).font_bytes, vec![3]);
    assert!(store.find("Sans").is_none());
    let f = Font::new("X".to_string(), None, vec![]);
    assert_eq!(f.atlas_em_px, 100);
}

#[test]
fn uniform_indices() {
    assert_eq!(RenderUniformIndex::System.index(), 1);
    assert_eq!(RenderUniformIndex::by_index(0), Some(RenderUniformIndex::Camera));
    assert_eq!(RenderUniformIndex::by_index(2), None);
    assert_eq!(PointLightUniformIndex::by_index(1), Some(PointLightUniformIndex::Lights));
    let i: PointLightUniformIndex = next_uniform_index(0);
    assert_eq!(i, PointLightUniformIndex::Count);
    assert!(!DebugRenderer::default().draw_edges);
    assert_ne!(MaterialError::MaterialNotFound, MaterialError::QueueNotInitialized);
}

#[test]
fn render_decisions() {
    assert_eq!(default_shader_id(Some(3), Some(4)), Ok(3));
    assert_eq!(default_shader_id(None, Some(4)), Ok(4));
    assert_eq!(default_shader_id(None, None), Err(RenderError::NoRenderPipeline));
    assert_eq!(resize_dimensions(0, 7), (1, 7));
    assert_eq!(choose_present_mode(&[PresentMode::Fifo, PresentMode::Immediate]), PresentMode::Immediate);
    assert_eq!(choose_present_mode(&[PresentMode::Immediate, PresentMode::Mailbox]), PresentMode::Mailbox);
    assert_eq!(choose_present_mode(&[PresentMode::FifoRelaxed]), PresentMode::FifoRelaxed);
    assert_eq!(choose_present_mode(&[]), PresentMode::Fifo);
    let ok = configure_surface(8, 9, &[], &[TextureFormat::Rgba8Unorm, TextureFormat::Bgra8UnormSrgb]).unwrap();
    assert_eq!((ok.width, ok.height, ok.desired_maximum_frame_latency), (8, 9, 2));
    assert_eq!(ok.format, TextureFormat::Bgra8UnormSrgb);
    assert_eq!(configure_surface(8, 9, &[], &[TextureFormat::Rgba8Unorm]), Err(SurfaceError::ColorFormatNotAvailable));
}

#[test]
fn error_reports_are_throttled() {
    let mut r = ErrorReporter::new();
    let reported: Vec<bool> = (0..7).map(|_| r.record(true)).collect();
    assert_eq!(reported, vec![true, true, true, true, true, false, false]);
    assert!(!r.record(false));
    assert!(r.record(true));
}

#[test]
fn pipeline_descriptions() {
    let p = RenderPipelineBuilder::post_process("Blur");
    assert_eq!(p.label, "Blur PostProcess Pipeline");
    let d = p.desc();
    assert!(d.depth_stencil.is_none());
    assert!(!d.mesh_vertex_buffers && !d.cull_back_faces);
    let q = RenderPipelineBuilder::dim3("Lit", PolygonMode::Line).desc();
    assert_eq!(q.label, "Lit Pipeline");
    assert_eq!(q.vertex_entry, "vs_main");
    assert_eq!(q.fragment_entry, "fs_main");
    assert_eq!(q.polygon_mode, PolygonMode::Line);
    assert_eq!(q.depth_stencil.unwrap().format, TextureFormat::Depth32Float);
    assert!(q.cull_back_faces);
}

#[test]
fn cache_drops_changed_assets() {
    let mut store: Store<Texture> = Store::populated();
    let mut cache: Cache<&'static str> = Cache::new();
    cache.insert(0, "diffuse");
    cache.insert(3, "extra");
    let h = store.add(Texture::load_pixels(vec![0; 4], 1, 1, TextureFormat::Rgba8Unorm));
    assert_eq!(h.id(), 3);
    store.get_mut(h);
    assert_eq!(cache.refresh_dirty(&mut store), 1);
    assert!(cache.get(3).is_none());
    assert_eq!(cache.get(0), Some(&"diffuse"));
    assert_eq!(cache.refresh_dirty(&mut store), 0);
    let warnings: usize = (0..2500).filter(|_| cache.record_miss()).count();
    assert_eq!(warnings, 2);
}

#[test]
fn glyph_blit_writes_only_its_rectangle() {
    // atlas of 4x3 pixels, stride 16; glyph 2x2 at column 1, row 1
    let mut px = vec![7u8; 48];
    let src = vec![1, 2, 3, 4, 5, 6, 7, 8, 9, 10, 11, 12];
    blit_rgb_glyph(&mut px, 16, 1, 1, &src, 2, 2);
    let mut expected = vec![7u8; 48];
    expected[20..28].copy_from_slice(&[1, 2, 3, 255, 4, 5, 6, 255]);
    expected[36..44].copy_from_slice(&[7, 8, 9, 255, 10, 11, 12, 255]);
    assert_eq!(px, expected);
    assert_eq!(glyph_upload_range(16, 1, 1, 2, 2), (20, 44));
}

#[test]
fn missing_glyphs_keeps_order_and_repeats() {
    let present = vec!['a', 'b'];
    let chars = vec!['a', 'x', 'b', 'y', 'x'];
    assert_eq!(missing_glyphs(&present, &chars), vec!['x', 'y', 'x']);
    assert_eq!(missing_glyphs(&vec![], &vec!['q']), vec!['q']);
    assert!(missing_glyphs(&present, &vec!['b', 'a']).is_empty());
}
