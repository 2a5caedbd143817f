use std::any::TypeId;
use syrillian::component_storage::ComponentStorage;
use syrillian::ids::GameObjectId;
use syrillian::scene::{GameObject, World};

fn owner() -> GameObjectId {
    GameObjectId::from_ffi(7)
}

#[test]
fn storage_starts_empty() {
    let s: ComponentStorage<String> = ComponentStorage::new();
    assert_eq!(s.len(), 0);
    assert!(s.is_empty());
    assert!(s.fresh().is_empty());
    assert!(s.removed().is_empty());
    assert!(s.iter().is_empty());
    assert!(s.values_of_type(TypeId::of::<u8>()).is_none());
}

#[test]
fn added_components_are_found_and_queued_fresh() {
    let mut s: ComponentStorage<String> = ComponentStorage::new();
    let a = s.add(TypeId::of::<u8>(), "a".to_string(), owner());
    let b = s.add(TypeId::of::<u16>(), "b".to_string(), owner());
    let c = s.add(TypeId::of::<u8>(), "c".to_string(), owner());
    assert_eq!(s.len(), 3);
    assert!(!s.is_empty());
    assert_eq!(a.type_id(), TypeId::of::<u8>());
    assert_eq!(b.type_id(), TypeId::of::<u16>());
    assert_ne!(a.component_id(), b.component_id());
    assert_ne!(a.component_id(), c.component_id());
    assert_eq!(s.get_dyn(a).map(|x| x.as_str()), Some("a"));
    assert_eq!(s.get_dyn(b).map(|x| x.as_str()), Some("b"));
    assert_eq!(s.get_dyn(c).map(|x| x.as_str()), Some("c"));
    let fresh: Vec<_> = s.fresh().iter().map(|t| t.component_id()).collect();
    assert_eq!(fresh, vec![a.component_id(), b.component_id(), c.component_id()]);

    let bytes: Vec<&str> = s.values_of_type(TypeId::of::<u8>()).unwrap().into_iter().map(|x| x.as_str()).collect();
    assert_eq!(bytes, vec!["a", "c"]);
    let all: Vec<&str> = s.iter().into_iter().map(|(_, o, x)| { assert_eq!(o, owner()); x.as_str() }).collect();
    assert_eq!(all, vec!["a", "b", "c"]);
}

#[test]
fn a_component_is_not_found_under_another_type() {
    let mut s: ComponentStorage<u32> = ComponentStorage::new();
    let a = s.add(TypeId::of::<u8>(), 7, owner());
    let wrong = syrillian::components::TypedComponentId(TypeId::of::<u16>(), a.component_id());
    assert!(s.get_dyn(wrong).is_none());
    assert_eq!(s.get_dyn(a), Some(&7));
}

#[test]
fn removing_a_component_takes_it_out_and_queues_it() {
    let mut s: ComponentStorage<u32> = ComponentStorage::new();
    let a = s.add(TypeId::of::<u8>(), 1, owner());
    let b = s.add(TypeId::of::<u8>(), 2, owner());
    s.remove(a);
    assert_eq!(s.len(), 1);
    assert!(s.get_dyn(a).is_none());
    assert_eq!(s.get_dyn(b), Some(&2));
    assert_eq!(s.removed().len(), 1);
    assert_eq!(s.removed()[0].component_id(), a.component_id());
    let left: Vec<u32> = s.iter().into_iter().map(|(_, _, x)| *x).collect();
    assert_eq!(left, vec![2]);
    // the type stays known after its last component leaves
    s.remove(b);
    assert!(s.is_empty());
    assert_eq!(s.values_of_type(TypeId::of::<u8>()).map(|v| v.len()), Some(0));
}

#[test]
fn removing_a_component_of_an_unknown_type_changes_nothing() {
    let mut s: ComponentStorage<u32> = ComponentStorage::new();
    let a = s.add(TypeId::of::<u8>(), 1, owner());
    let stranger = syrillian::components::TypedComponentId(TypeId::of::<u64>(), a.component_id());
    s.remove(stranger);
    assert_eq!(s.len(), 1);
    assert!(s.removed().is_empty());
    assert_eq!(s.get_dyn(a), Some(&1));
}

#[test]
fn removing_twice_still_counts_down_once_per_call() {
    let mut s: ComponentStorage<u32> = ComponentStorage::new();
    let a = s.add(TypeId::of::<u8>(), 1, owner());
    let _b = s.add(TypeId::of::<u8>(), 2, owner());
    s.remove(a);
    s.remove(a);
    assert_eq!(s.len(), 0);
    assert_eq!(s.removed().len(), 2);
    s.remove(a);
    assert_eq!(s.len(), 0);
}

#[test]
fn writing_through_get_dyn_mut_changes_only_that_component() {
    let mut s: ComponentStorage<u32> = ComponentStorage::new();
    let a = s.add(TypeId::of::<u8>(), 1, owner());
    let b = s.add(TypeId::of::<u8>(), 2, owner());
    *s.get_dyn_mut(a).unwrap() = 10;
    assert_eq!(s.get_dyn(a), Some(&10));
    assert_eq!(s.get_dyn(b), Some(&2));
    assert_eq!(s.len(), 2);
    s.remove(a);
    assert!(s.get_dyn_mut(a).is_none());
}

#[test]
fn object_component_queries_follow_the_owners() {
    let mut w = World::new();
    let parent = w.new_object("parent".to_string());
    let a = w.new_object("a".to_string());
    let b = w.new_object("b".to_string());
    GameObject::add_child(&mut w, parent, a);
    GameObject::add_child(&mut w, parent, b);
    w.add_child(parent);

    let mut s: ComponentStorage<&str> = ComponentStorage::new();
    let p1 = s.add(TypeId::of::<u8>(), "p-u8", parent);
    let b1 = s.add(TypeId::of::<u16>(), "b-u16", b);
    let b2 = s.add(TypeId::of::<u16>(), "b-u16-second", b);
    let a1 = s.add(TypeId::of::<u16>(), "a-u16", a);

    let po = w.get_object(&parent).unwrap();
    assert_eq!(po.get_component(&s, TypeId::of::<u8>()).map(|c| c.component_id()), Some(p1.component_id()));
    assert!(po.get_component(&s, TypeId::of::<u16>()).is_none());
    let bo = w.get_object(&b).unwrap();
    let bs: Vec<_> = bo.get_components(&s, TypeId::of::<u16>()).iter().map(|c| c.component_id()).collect();
    assert_eq!(bs, vec![b1.component_id(), b2.component_id()]);
    // children are looked at in order: a comes before b
    assert_eq!(po.get_child_component(&s, TypeId::of::<u16>()).map(|c| c.component_id()), Some(a1.component_id()));
    assert!(po.get_child_component(&s, TypeId::of::<u8>()).is_none());

    // children's subtrees first, then the object itself
    let all: Vec<_> = w.get_all_components_of_type(&s, TypeId::of::<u16>()).iter().map(|c| c.component_id()).collect();
    assert_eq!(all, vec![a1.component_id(), b1.component_id(), b2.component_id()]);
    let bytes: Vec<_> = w.get_all_components_of_type(&s, TypeId::of::<u8>()).iter().map(|c| c.component_id()).collect();
    assert_eq!(bytes, vec![p1.component_id()]);
}

#[test]
fn components_of_objects_outside_the_root_level_are_not_collected() {
    let mut w = World::new();
    let loose = w.new_object("loose".to_string());
    let mut s: ComponentStorage<u32> = ComponentStorage::new();
    s.add(TypeId::of::<u8>(), 1, loose);
    assert!(w.get_all_components_of_type(&s, TypeId::of::<u8>()).is_empty());
    assert_eq!(s.components_of(loose, TypeId::of::<u8>()).len(), 1);
}

#[test]
fn deleting_an_object_tree_removes_its_components() {
    let mut w = World::new();
    let a = w.new_object("a".to_string());
    let b = w.new_object("b".to_string());
    let c = w.new_object("c".to_string());
    let keep = w.new_object("keep".to_string());
    w.add_child(a);
    w.add_child(keep);
    GameObject::add_child(&mut w, a, b);
    GameObject::add_child(&mut w, b, c);

    let mut s: ComponentStorage<u32> = ComponentStorage::new();
    let on_a = s.add(TypeId::of::<u8>(), 1, a);
    let on_c = s.add(TypeId::of::<u8>(), 2, c);
    let on_keep = s.add(TypeId::of::<u8>(), 3, keep);
    let on_b = s.add(TypeId::of::<u16>(), 4, b);

    w.delete_object(&mut s, b);
    assert!(!b.exists_in(&w));
    assert!(!c.exists_in(&w));
    assert_eq!(s.len(), 2);
    assert_eq!(s.get_dyn(on_a), Some(&1));
    assert_eq!(s.get_dyn(on_keep), Some(&3));
    assert!(s.get_dyn(on_c).is_none());
    assert!(s.get_dyn(on_b).is_none());
    let removed: Vec<_> = s.removed().iter().map(|t| t.component_id()).collect();
    assert_eq!(removed, vec![on_c.component_id(), on_b.component_id()]);
}

struct Marker {
    on: GameObjectId,
}

impl syrillian::components::NewComponent for Marker {
    fn new(parent: GameObjectId) -> Self {
        Marker { on: parent }
    }
}

#[test]
fn add_child_components_gives_each_child_one() {
    let mut w = World::new();
    let p = w.new_object("p".to_string());
    let a = w.new_object("a".to_string());
    let b = w.new_object("b".to_string());
    GameObject::add_child(&mut w, p, a);
    GameObject::add_child(&mut w, p, b);
    let mut s: ComponentStorage<Marker> = ComponentStorage::new();
    w.get_object(&p).unwrap().add_child_components(&mut s, TypeId::of::<Marker>());
    assert_eq!(s.len(), 2);
    let made: Vec<(GameObjectId, GameObjectId)> = s.iter().into_iter().map(|(_, o, m)| (o, m.on)).collect();
    assert_eq!(made, vec![(a, a), (b, b)]);
    assert!(w.get_object(&p).unwrap().get_component(&s, TypeId::of::<Marker>()).is_none());
    assert!(w.get_object(&a).unwrap().get_component(&s, TypeId::of::<Marker>()).is_some());
}
