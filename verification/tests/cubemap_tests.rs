use syrillian::cubemap::{Cubemap, CubemapFaces, FaceColor, RgbaImage};
use syrillian::store::{Store, StoreType, StoreTypeFallback, H, HandleName};
use syrillian::texture::TextureFormat;

fn no_images() -> Vec<Option<RgbaImage>> {
    vec![None, None, None, None, None, None]
}

#[test]
fn test_from_files_returns_ok() {
    // None of the six face files can be read.
    let images = no_images();
    let resampled = Cubemap::resample_faces(&images);
    assert!(resampled.iter().all(|r| r.is_none()));
    let cubemap = Cubemap::from_face_images(images, resampled);
    assert_eq!(cubemap.width, 64);
    assert_eq!(cubemap.height, 64);
    assert_eq!(cubemap.faces.len(), 6);
}

#[test]
fn test_from_single_image_returns_ok() {
    // The equirectangular image cannot be read.
    let cubemap = Cubemap::fallback_image_cubemap();
    assert_eq!(cubemap.width, 64);
    assert_eq!(cubemap.height, 64);
    assert_eq!(cubemap.faces.len(), 6);
}

#[test]
fn test_basic_cubemap_properties() {
    let cubemap = Cubemap {
        faces: Cubemap::gen_fallback_cubemap(32),
        width: 32,
        height: 32,
        format: TextureFormat::Rgba8UnormSrgb,
    };
    assert_eq!(cubemap.width, 32);
    assert_eq!(cubemap.height, 32);
    assert_eq!(cubemap.faces.len(), 6);
    assert_eq!(cubemap.format, TextureFormat::Rgba8UnormSrgb);
    for face in cubemap.faces.iter() {
        assert_eq!(face.len(), (32 * 32 * 4) as usize);
    }
}

#[test]
fn test_handle_based_cubemap_integration() {
    let store: Store<Cubemap> = Store::populated();
    let fallback_handle = H::<Cubemap>::fallback_cubemap();
    let cubemap_ref = store.get(fallback_handle);
    assert_eq!(cubemap_ref.faces.len(), 6);
    assert_eq!(cubemap_ref.width, 32);
    assert_eq!(cubemap_ref.height, 32);
}

#[test]
fn fallback_faces_have_their_colors() {
    let faces = Cubemap::gen_fallback_cubemap(2);
    let all = faces.iter();
    assert_eq!(all[0], &vec![255, 0, 0, 255, 255, 0, 0, 255, 255, 0, 0, 255, 255, 0, 0, 255]);
    assert_eq!(&all[1][0..4], &[0, 255, 0, 255]);
    assert_eq!(&all[2][0..4], &[0, 0, 255, 255]);
    assert_eq!(&all[3][0..4], &[255, 255, 0, 255]);
    assert_eq!(&all[4][0..4], &[255, 0, 255, 255]);
    assert_eq!(&all[5][0..4], &[0, 255, 255, 255]);
}

#[test]
fn from_colors_repeats_each_color() {
    let c = FaceColor::new(1, 2, 3, 4);
    assert_eq!(c.to_array(), [1, 2, 3, 4]);
    let faces = CubemapFaces::from_colors([c; 6], 1);
    assert_eq!(faces.positive_x, vec![1, 2, 3, 4]);
    assert_eq!(faces.negative_z, vec![1, 2, 3, 4]);
    assert!(!faces.is_empty());
}

#[test]
fn first_image_sets_size_and_others_are_resized() {
    let img = |w: u32, h: u32, v: u8| Some(RgbaImage { width: w, height: h, pixels: vec![v; (w * h * 4) as usize] });
    let images = vec![img(2, 2, 10), img(2, 2, 20), img(4, 4, 30), None, img(2, 2, 50), img(1, 1, 60)];
    let resampled = Cubemap::resample_faces(&images);
    let which: Vec<bool> = resampled.iter().map(|r| r.is_some()).collect();
    assert_eq!(which, vec![false, false, true, false, false, true]);
    let cubemap = Cubemap::from_face_images(images, resampled);
    assert_eq!((cubemap.width, cubemap.height), (2, 2));
    assert_eq!(cubemap.format, TextureFormat::Rgba8UnormSrgb);
    assert_eq!(cubemap.faces.positive_x, vec![10; 16]);
    assert_eq!(cubemap.faces.negative_x, vec![20; 16]);
    // resized to 2 by 2
    assert_eq!(cubemap.faces.positive_y.len(), 16);
    assert!(cubemap.faces.positive_y.iter().all(|b| *b == 30));
    // missing face: 64 by 64 of yellow
    assert_eq!(cubemap.faces.negative_y.len(), 64 * 64 * 4);
    assert_eq!(&cubemap.faces.negative_y[0..4], &[255, 255, 0, 255]);
    assert_eq!(cubemap.faces.positive_z, vec![50; 16]);
    assert_eq!(cubemap.faces.negative_z.len(), 16);
}

#[test]
fn cubemap_store_traits() {
    assert_eq!(<Cubemap as StoreType>::name(), "Cubemap");
    assert!(Cubemap::is_builtin(H::new(0)));
    assert!(!Cubemap::is_builtin(H::new(1)));
    assert_eq!(Cubemap::fallback().id(), 0);
    match Cubemap::ident_fmt(H::new(0)) {
        HandleName::Static(s) => assert_eq!(s, "Cubemap Fallback"),
        HandleName::Id(_) => panic!("expected a static name"),
    }
    match Cubemap::ident_fmt(H::new(5)) {
        HandleName::Id(h) => assert_eq!(h.id(), 5),
        HandleName::Static(_) => panic!("expected the handle"),
    }
}

#[test]
fn equirect_face_size_is_a_quarter_at_least_64() {
    assert_eq!(Cubemap::equirect_face_size(4096), 1024);
    assert_eq!(Cubemap::equirect_face_size(100), 64);
    assert_eq!(Cubemap::equirect_face_size(259), 64);
}

#[test]
fn store_fallback_cubemap_is_bgra() {
    let store: Store<Cubemap> = Store::populated();
    let c = store.get(H::new(7));
    assert_eq!(c.format, TextureFormat::Bgra8UnormSrgb);
    assert_eq!(c.faces.positive_x.len(), 32 * 32 * 4);
    let cm = Cubemap::fallback_image_cubemap();
    assert_eq!(cm.bytes_per_row(), Some(256));
}

#[test]
fn from_face_images_places_the_given_resampled_faces() {
    let img = |w: u32, h: u32, v: u8| Some(RgbaImage { width: w, height: h, pixels: vec![v; (w * h * 4) as usize] });
    let images = vec![img(1, 1, 1), img(2, 2, 2), None, img(1, 1, 4), img(1, 1, 5), img(1, 1, 6)];
    let resampled = vec![None, Some(vec![7, 7, 7, 7]), None, None, None, None];
    let cubemap = Cubemap::from_face_images(images, resampled);
    assert_eq!(cubemap.faces.negative_x, vec![7, 7, 7, 7]);
    assert_eq!(cubemap.faces.positive_x, vec![1, 1, 1, 1]);
}
