use syrillian::ids::GameObjectId;
use syrillian::node_tree::NodeTree;
use syrillian::scene::World;
use syrillian::scene_loader::SceneLoader;

fn sample_tree() -> NodeTree {
    // 0 ── 1 ── 3
    //   └─ 2
    // 4 (second root)
    NodeTree {
        names: vec![Some("body".to_string()), None, Some("arm".to_string()), Some("hand".to_string()), None],
        children: vec![vec![1, 2], vec![3], vec![], vec![], vec![]],
        properties: vec![vec![("mass".to_string(), serde_json::Value::from(2))], vec![], vec![], vec![], vec![]],
        roots: vec![0, 4],
    }
}

fn name_of(w: &World, id: GameObjectId) -> String {
    w.get_object(&id).unwrap().name.clone()
}

fn children_of(w: &World, id: GameObjectId) -> Vec<GameObjectId> {
    w.get_object(&id).unwrap().children().to_vec()
}

#[test]
fn first_mesh_node_searches_depth_first() {
    let tree = sample_tree();
    assert_eq!(tree.first_mesh_node(&vec![false, false, true, true, true]), Some(3));
    assert_eq!(tree.first_mesh_node(&vec![false, false, true, false, true]), Some(2));
    assert_eq!(tree.first_mesh_node(&vec![false, false, false, false, true]), Some(4));
    assert_eq!(tree.first_mesh_node(&vec![true, true, true, true, true]), Some(0));
    assert_eq!(tree.first_mesh_node(&vec![false; 5]), None);
    assert_eq!(tree.first_mesh_node(&vec![]), None);
}

#[test]
fn object_count_counts_every_node_and_the_scene() {
    let tree = sample_tree();
    assert_eq!(tree.object_count(100), Some(6));
    assert_eq!(tree.object_count(6), Some(6));
    assert_eq!(tree.object_count(5), None);
    assert_eq!(tree.object_count(0), None);
}

#[test]
fn object_count_follows_shared_children_once_per_link() {
    // node 1 is listed under both roots: it is built twice
    let tree = NodeTree {
        names: vec![None, None, None],
        children: vec![vec![1], vec![], vec![1]],
        properties: vec![],
        roots: vec![0, 2],
    };
    assert_eq!(tree.object_count(100), Some(5));
}

#[test]
fn load_into_world_mirrors_the_node_tree() {
    let tree = sample_tree();
    let mut w = World::new();
    let before = w.new_object("existing".to_string());
    let root = SceneLoader::load_into_world(&mut w, &tree).unwrap();
    assert_eq!(name_of(&w, root), "glTF Scene");
    assert!(w.get_object(&root).unwrap().parent().is_none());
    assert!(w.children().is_empty());

    let tops = children_of(&w, root);
    assert_eq!(tops.len(), 2);
    assert_eq!(name_of(&w, tops[0]), "body");
    assert_eq!(w.get_object(&tops[0]).unwrap().property("mass"), Some(&serde_json::Value::from(2)));
    assert!(w.get_object(&tops[1]).unwrap().properties().is_empty());
    assert!(w.get_object(&root).unwrap().properties().is_empty());
    assert_eq!(name_of(&w, tops[1]), "Unnamed");
    assert_eq!(*w.get_object(&tops[0]).unwrap().parent(), Some(root));

    let body = children_of(&w, tops[0]);
    assert_eq!(body.len(), 2);
    assert_eq!(name_of(&w, body[0]), "Unnamed");
    assert_eq!(name_of(&w, body[1]), "arm");
    let first = children_of(&w, body[0]);
    assert_eq!(first.len(), 1);
    assert_eq!(name_of(&w, first[0]), "hand");
    assert!(children_of(&w, first[0]).is_empty());
    assert!(children_of(&w, tops[1]).is_empty());

    assert_eq!(name_of(&w, before), "existing");
    assert!(children_of(&w, before).is_empty());
}

#[test]
fn spawn_node_builds_one_subtree() {
    let tree = sample_tree();
    let mut w = World::new();
    let arm = SceneLoader::spawn_node(&mut w, &tree, 1, 5);
    assert_eq!(name_of(&w, arm), "Unnamed");
    let kids = children_of(&w, arm);
    assert_eq!(kids.len(), 1);
    assert_eq!(name_of(&w, kids[0]), "hand");
    assert!(w.get_object(&arm).unwrap().parent().is_none());
}

#[test]
fn spawn_node_without_fuel_builds_only_the_node() {
    let tree = sample_tree();
    let mut w = World::new();
    let body = SceneLoader::spawn_node(&mut w, &tree, 0, 0);
    assert_eq!(name_of(&w, body), "body");
    assert!(children_of(&w, body).is_empty());
}
