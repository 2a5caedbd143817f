use syrillian::components::LightType;
use syrillian::material::{Material, ONE_BITS, POINT_SEVEN_BITS, POINT_THREE_BITS};
use syrillian::scene_loader::{GltfImageFormat, GltfLightKind, PrimitiveInfo, SceneLoader};
use syrillian::store::{HandleName, Store, StoreType, H};
use syrillian::texture::TextureFormat;

fn prim(has_positions: bool, vertex_count: usize, indices: Option<Vec<u32>>, triangles: bool, material: Option<usize>) -> PrimitiveInfo {
    PrimitiveInfo { has_positions, vertex_count, indices, triangles, material }
}

#[test]
fn mesh_plan_expands_triangles() {
    let ps = vec![
        prim(true, 4, Some(vec![0, 1, 2, 2, 3, 0, 1]), true, Some(3)),
        prim(true, 2, None, false, Some(7)),
        prim(true, 3, None, true, None),
    ];
    let plan = SceneLoader::mesh_plan(&ps).unwrap();
    assert_eq!(plan.corners, vec![(0, 0), (0, 1), (0, 2), (0, 2), (0, 3), (0, 0), (2, 0), (2, 1), (2, 2)]);
    assert_eq!(plan.ranges, vec![0..6, 6..9]);
    assert_eq!(plan.materials, vec![3, 0]);
}

#[test]
fn mesh_plan_needs_positions_and_corners() {
    assert!(SceneLoader::mesh_plan(&vec![prim(true, 3, None, true, None), prim(false, 0, None, false, None)]).is_none());
    assert!(SceneLoader::mesh_plan(&vec![prim(true, 2, None, true, None)]).is_none());
    assert!(SceneLoader::mesh_plan(&vec![]).is_none());
}

#[test]
fn bones() {
    assert_eq!(SceneLoader::remap_joint(2, 3), 2);
    assert_eq!(SceneLoader::remap_joint(3, 3), 0);
    // nodes 10 (root) -> 11 -> 12, and 13 whose parent 14 is no joint
    let mut node_parent = vec![None; 15];
    node_parent[11] = Some(10);
    node_parent[12] = Some(11);
    node_parent[13] = Some(14);
    let joints = vec![10, 11, 12, 13];
    let parents = SceneLoader::bone_parents(&joints, &node_parent);
    assert_eq!(parents, vec![None, Some(0), Some(1), None]);
    // a parent listed after its child is not found
    let late = SceneLoader::bone_parents(&vec![12, 11], &node_parent);
    assert_eq!(late, vec![None, None]);
    let (children, roots) = SceneLoader::bone_children(&parents);
    assert_eq!(children, vec![vec![1], vec![2], vec![], vec![]]);
    assert_eq!(roots, vec![0, 3]);
    assert_eq!(SceneLoader::joint_name(None), "<unnamed>");
    assert_eq!(SceneLoader::node_name(Some("Hip")), "Hip");
    assert_eq!(SceneLoader::node_name(None), "Unnamed");
}

#[test]
fn gltf_images() {
    let t = SceneLoader::load_texture(GltfImageFormat::R8G8B8, 1, 2, vec![1, 2, 3, 4, 5, 6, 7]).unwrap();
    assert_eq!(t.data, Some(vec![1, 2, 3, 255, 4, 5, 6, 255, 7, 255]));
    assert_eq!(t.format, TextureFormat::Rgba8UnormSrgb);
    assert!(!t.has_transparency);
    let t = SceneLoader::load_texture(GltfImageFormat::R8G8B8A8, 1, 1, vec![1, 2, 3, 4]).unwrap();
    assert_eq!(t.data, Some(vec![1, 2, 3, 4]));
    assert!(t.has_transparency);
    assert!(SceneLoader::load_texture(GltfImageFormat::R16G16B16, 1, 1, vec![0; 6]).is_none());
    assert!(SceneLoader::load_texture(GltfImageFormat::R32G32B32FLOAT, 1, 1, vec![0; 12]).is_none());
}

#[test]
fn lights_and_materials() {
    assert_eq!(SceneLoader::light_type(GltfLightKind::Directional), LightType::Sun);
    assert_eq!(SceneLoader::light_type(GltfLightKind::Spot), LightType::Spot);
    let table = vec![(0, 5), (2, 9), (2, 11)];
    assert_eq!(SceneLoader::resolve_material(&table, 2, 0), 9);
    assert_eq!(SceneLoader::resolve_material(&table, 1, 0), 0);
}

#[test]
fn material_defaults() {
    assert_eq!(f32::from_bits(ONE_BITS), 1.0);
    assert_eq!(f32::from_bits(POINT_SEVEN_BITS), 0.7);
    assert_eq!(f32::from_bits(POINT_THREE_BITS), 0.3);
    let m = Material::builder("Rock".to_string()).shininess(0.5f32.to_bits()).build();
    assert_eq!(m.name, "Rock");
    assert_eq!(m.color, [POINT_SEVEN_BITS; 3]);
    assert_eq!(m.opacity, ONE_BITS);
    assert_eq!(m.shader.id(), 2);
    assert_eq!(f32::from_bits(m.shininess), 0.5);
    assert!(m.diffuse_texture.is_none());
    let m = Material::builder("T".to_string()).diffuse_texture(H::new(4)).build();
    assert_eq!(m.diffuse_texture.map(|h| h.id()), Some(4));
    let store: Store<Material> = Store::populated();
    assert_eq!(store.get(H::default_material()).name, "Default Material");
    assert_eq!(store.get(H::new(40)).name, "Fallback Material");
    assert_eq!(store.get(H::fallback_material()).shader.id(), 0);
    match Material::ident_fmt(H::new(1)) {
        HandleName::Static(s) => assert_eq!(s, "Default Material"),
        HandleName::Id(_) => panic!("expected a static name"),
    }
    assert_eq!(<Material as StoreType>::name(), "Material");
}

#[test]
fn animation_names() {
    assert_eq!(SceneLoader::animation_name(None), "Animation");
    assert_eq!(SceneLoader::animation_name(Some("Walk")), "Walk");
    assert_eq!(SceneLoader::channel_target(None, 12), "node12");
    assert_eq!(SceneLoader::channel_target(Some("Arm"), 12), "Arm");
}
