use syrillian::gltf_doc::SceneLoadError;
use syrillian::ids::GameObjectId;
use syrillian::scene::World;
use syrillian::scene_loader::SceneLoader;

fn name_of(w: &World, id: GameObjectId) -> String {
    w.get_object(&id).unwrap().name.clone()
}

fn children_of(w: &World, id: GameObjectId) -> Vec<GameObjectId> {
    w.get_object(&id).unwrap().children().to_vec()
}

const TWO_SCENES: &str = r#"{
  "asset": {"version": "2.0"},
  "scene": 1,
  "scenes": [{"nodes": [2]}, {"nodes": [0]}],
  "nodes": [
    {"name": "Root", "children": [1], "extras": {"speed": 2, "label": "x"}},
    {"extras": [1, 2]},
    {"name": "Other"}
  ]
}"#;

#[test]
fn load_buffer_builds_the_default_scene() {
    let mut w = World::new();
    let root = SceneLoader::load_buffer(&mut w, TWO_SCENES.as_bytes()).unwrap();
    assert_eq!(name_of(&w, root), "glTF Scene");
    let tops = children_of(&w, root);
    assert_eq!(tops.len(), 1);
    assert_eq!(name_of(&w, tops[0]), "Root");
    let obj = w.get_object(&tops[0]).unwrap();
    assert_eq!(obj.property("speed"), Some(&serde_json::Value::from(2)));
    assert_eq!(obj.property("label"), Some(&serde_json::Value::from("x")));
    let kids = children_of(&w, tops[0]);
    assert_eq!(kids.len(), 1);
    assert_eq!(name_of(&w, kids[0]), "Unnamed");
    assert!(w.get_object(&kids[0]).unwrap().properties().is_empty());
}

#[test]
fn first_scene_is_taken_without_a_default() {
    let doc = r#"{"asset": {"version": "2.0"}, "scenes": [{"nodes": [1]}, {"nodes": [0]}],
        "nodes": [{"name": "A"}, {"name": "B"}]}"#;
    let tree = SceneLoader::load_scene_from_buffer(doc.as_bytes()).unwrap();
    assert_eq!(tree.roots, vec![1]);
    assert_eq!(tree.names, vec![Some("A".to_string()), Some("B".to_string())]);
}

#[test]
fn properties_come_from_object_extras_in_key_order() {
    let tree = SceneLoader::load_scene_from_buffer(TWO_SCENES.as_bytes()).unwrap();
    let keys: Vec<&str> = tree.properties[0].iter().map(|p| p.0.as_str()).collect();
    assert_eq!(keys, vec!["label", "speed"]);
    assert!(tree.properties[1].is_empty());
    assert!(tree.properties[2].is_empty());
    assert_eq!(tree.children, vec![vec![1], vec![], vec![]]);
    assert_eq!(tree.roots, vec![0]);
}

#[test]
fn document_without_scene_is_refused() {
    let mut w = World::new();
    let doc = r#"{"asset": {"version": "2.0"}, "nodes": [{"name": "A"}]}"#;
    assert!(SceneLoader::gltf_import_succeeds(doc.as_bytes()));
    assert_eq!(SceneLoader::load_buffer(&mut w, doc.as_bytes()), Err(SceneLoadError::NoScene));
    assert!(w.children().is_empty());
}

#[test]
fn garbage_is_an_import_error() {
    let mut w = World::new();
    assert_eq!(SceneLoader::load_buffer(&mut w, b"not a gltf file"), Err(SceneLoadError::Import));
    assert!(!SceneLoader::gltf_import_succeeds(&[]));
}

#[test]
fn buffer_naming_a_file_fails_without_panicking() {
    let bad_escape = r#"{"asset": {"version": "2.0"}, "scenes": [{"nodes": []}],
        "buffers": [{"byteLength": 4, "uri": "mesh%FF.bin"}]}"#;
    assert!(!SceneLoader::gltf_import_succeeds(bad_escape.as_bytes()));
    let plain = r#"{"asset": {"version": "2.0"}, "scenes": [{"nodes": []}],
        "buffers": [{"byteLength": 4, "uri": "mesh.bin"}]}"#;
    assert!(matches!(SceneLoader::load_scene_from_buffer(plain.as_bytes()), Err(SceneLoadError::Import)));
}

#[test]
fn embedded_buffer_imports() {
    let doc = r#"{"asset": {"version": "2.0"}, "scenes": [{"nodes": []}],
        "buffers": [{"byteLength": 4, "uri": "data:application/octet-stream;base64,AAAAAA=="}]}"#;
    assert!(SceneLoader::gltf_import_succeeds(doc.as_bytes()));
    let mut w = World::new();
    let root = SceneLoader::load_buffer(&mut w, doc.as_bytes()).unwrap();
    assert!(children_of(&w, root).is_empty());
}

#[test]
fn image_given_by_uri_is_an_import_error() {
    let doc = r#"{"asset": {"version": "2.0"}, "scenes": [{"nodes": []}],
        "images": [{"uri": "data:image/png;base64,AAAA"}]}"#;
    assert!(!SceneLoader::gltf_import_succeeds(doc.as_bytes()));
    let mut w = World::new();
    assert_eq!(SceneLoader::load_buffer(&mut w, doc.as_bytes()), Err(SceneLoadError::Import));
}
