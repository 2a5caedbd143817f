use syrillian::store::{HandleName, Store, StoreType, StoreTypeFallback, H};
use syrillian::texture::{AddressMode, FilterMode, Texture, TextureFormat, TextureViewDimension, FALLBACK_SIZE};

#[test]
fn fallback_diffuse_is_a_checkerboard() {
    let d = Texture::gen_fallback_diffuse(2, 2);
    assert_eq!(d, vec![0, 0, 0, 255, 255, 0, 255, 255, 255, 0, 255, 255, 0, 0, 0, 255]);
    assert_eq!(Texture::gen_fallback_diffuse(35, 35).len(), 35 * 35 * 4);
    assert_eq!(Texture::gen_fallback_diffuse(0, 5).len(), 0);
    // sides beyond i32::MAX give no pixels
    assert_eq!(Texture::gen_fallback_diffuse(3_000_000_000, 1).len(), 0);
}

#[test]
fn transparency_follows_alpha_bytes() {
    assert!(!Texture::calculate_transparency(TextureFormat::Rgba8Unorm, &[1, 2, 3, 255, 4, 5, 6, 255]));
    assert!(Texture::calculate_transparency(TextureFormat::Rgba8Unorm, &[1, 2, 3, 255, 4, 5, 6, 254]));
    assert!(Texture::calculate_transparency(TextureFormat::Rg8Unorm, &[0, 255, 0, 7]));
    assert!(!Texture::calculate_transparency(TextureFormat::Rg8Unorm, &[0, 255, 0]));
    assert!(!Texture::calculate_transparency(TextureFormat::R8Unorm, &[0, 0, 0, 0]));
    assert!(!Texture::calculate_transparency(TextureFormat::Bgra8UnormSrgb, &[]));
    // a trailing partial pixel has no alpha byte
    assert!(!Texture::calculate_transparency(TextureFormat::Rgba8Unorm, &[0, 0, 0, 255, 0, 0]));
}

#[test]
fn from_rgba8_swaps_red_and_blue() {
    let t = Texture::from_rgba8(1, 2, &[1, 2, 3, 4, 5, 6, 7, 255, 9, 9]);
    assert_eq!(t.data, Some(vec![3, 2, 1, 4, 7, 6, 5, 255]));
    assert_eq!(t.format, TextureFormat::Bgra8UnormSrgb);
    assert!(t.has_transparency);
    assert_eq!((t.width, t.height, t.array_layers), (1, 2, 1));
}

#[test]
fn load_image_rejects_garbage() {
    assert!(Texture::load_image_from_memory(&[1, 2, 3, 4]).is_err());
}

#[test]
fn load_image_decodes_png() {
    let img = image::RgbaImage::from_raw(2, 1, vec![255, 0, 0, 255, 10, 20, 30, 40]).unwrap();
    let mut bytes: Vec<u8> = Vec::new();
    img.write_to(&mut std::io::Cursor::new(&mut bytes), image::ImageFormat::Png).unwrap();
    let t = Texture::load_image_from_memory(&bytes).ok().unwrap();
    assert_eq!((t.width, t.height), (2, 1));
    assert_eq!(t.data, Some(vec![0, 0, 255, 255, 30, 20, 10, 40]));
    assert!(t.has_transparency);
    assert_eq!(t.format, TextureFormat::Bgra8UnormSrgb);
}

#[test]
fn descriptors_follow_the_texture() {
    let t = Texture::new_2d_shadow_map_array(0, 16, 8);
    assert_eq!(t.format, TextureFormat::Depth32Float);
    assert!(t.data.is_none());
    let d = t.desc();
    assert_eq!(d.depth_or_array_layers, 1);
    assert_eq!((d.mip_level_count, d.sample_count), (1, 1));
    assert_eq!(t.view_desc().dimension, TextureViewDimension::D2);
    let a = Texture::new_2d_shadow_array(0, 4, 4);
    assert_eq!(a.array_layers, 1);
    let b = Texture::new_2d_shadow_array(6, 4, 4);
    assert_eq!(b.array_layers, 6);
    assert_eq!(b.view_desc().dimension, TextureViewDimension::D2Array);
    let s = b.sampler_desc();
    assert_eq!(s.address_mode_u, AddressMode::Repeat);
    assert_eq!(s.mag_filter, FilterMode::Linear);
}

#[test]
fn refresh_transparency_uses_view_format() {
    let mut t = Texture::load_pixels_with_transparency(vec![0, 0, 0, 1], 1, 1, TextureFormat::Rgba8Unorm, false);
    assert!(!t.has_transparency);
    t.refresh_transparency();
    assert!(t.has_transparency);
    let mut s = Texture::new_2d_shadow_map_array(1, 1, 1);
    s.has_transparency = true;
    s.refresh_transparency();
    assert!(s.has_transparency);
}

#[test]
fn texture_store_defaults() {
    let store: Store<Texture> = Store::populated();
    assert_eq!(store.len(), 3);
    let diffuse = store.get(H::fallback_diffuse());
    assert_eq!((diffuse.width, diffuse.height), (FALLBACK_SIZE, FALLBACK_SIZE));
    assert_eq!(diffuse.data.as_ref().unwrap().len(), 35 * 35 * 4);
    let normal = store.get(H::fallback_normal());
    assert_eq!(normal.data, Some(vec![0, 0, 0, 0]));
    assert!(!normal.has_transparency);
    // unknown handles resolve to the diffuse fallback
    assert_eq!(store.get(H::new(99)).width, 35);
    assert_eq!(<Texture as StoreType>::name(), "Texture");
    assert_eq!(Texture::fallback().id(), 0);
    match Texture::ident_fmt(H::fallback_roughness()) {
        HandleName::Static(s) => assert_eq!(s, "Diffuse Fallback"),
        HandleName::Id(_) => panic!("expected a static name"),
    }
    match Texture::ident_fmt(H::fallback_normal()) {
        HandleName::Static(s) => assert_eq!(s, "Normal Fallback"),
        HandleName::Id(_) => panic!("expected a static name"),
    }
}

#[test]
fn store_add_remove_and_dirty() {
    let mut store: Store<Texture> = Store::populated();
    let h = store.add(Texture::load_pixels(vec![1, 2, 3, 4], 1, 1, TextureFormat::Rgba8Unorm));
    assert_eq!(h.id(), 3);
    assert!(store.try_get(h).is_some());
    assert!(store.pop_dirty().is_empty());
    // built-ins cannot be removed
    assert!(store.remove(H::new(1)).is_none());
    assert!(store.try_get(H::new(1)).is_some());
    assert!(store.pop_dirty().is_empty());
    // removing marks the handle dirty, once
    assert!(store.remove(h).is_some());
    assert!(store.try_get(h).is_none());
    assert!(store.remove(h).is_none());
    assert_eq!(store.pop_dirty(), vec![3]);
    assert!(store.pop_dirty().is_empty());
    // mutable access marks dirty
    store.get_mut(H::new(50)).has_transparency = true;
    assert!(store.get(H::new(0)).has_transparency);
    assert_eq!(store.pop_dirty(), vec![0]);
    assert!(store.try_get_mut(H::new(50)).is_none());
}

#[test]
fn handle_identification() {
    assert_eq!(syrillian::store::ident(H::<Texture>::new(1)), "Normal Fallback");
    assert_eq!(syrillian::store::ident(H::<Texture>::new(42)), "Texture #42");
    assert_eq!(Texture::ident_fmt(H::new(0)).to_display_string(), "\"Diffuse Fallback\"");
    assert_eq!(Texture::ident_fmt(H::new(7)).to_display_string(), "#7");
}
