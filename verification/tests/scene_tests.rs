use syrillian::ids::GameObjectId;
use syrillian::component_storage::ComponentStorage;
use syrillian::scene::{GameObject, World};

#[test]
fn ids_encode_slot_keys() {
    let null = GameObjectId::null();
    assert!(null.is_null());
    assert_eq!(null.as_ffi(), 0x1_ffff_ffff);
    let id = GameObjectId::from_ffi(5);
    assert_eq!(id.as_ffi(), 5 | (1 << 32));
    assert!(!id.is_null());
    assert_eq!(GameObjectId::from_ffi(id.as_ffi()), id);
}

#[test]
fn objects_and_links() {
    let mut w = World::new();
    let a = w.new_object("a".to_string());
    let b = w.new_object("b".to_string());
    let c = w.new_object("b".to_string());
    assert!(a.exists_in(&w));
    assert!(!GameObjectId::null().exists_in(&w));
    w.add_child(a);
    assert_eq!(w.children(), &[a]);
    GameObject::add_child(&mut w, a, b);
    GameObject::add_child(&mut w, b, c);
    assert_eq!(w.get_object(&a).unwrap().children(), &[b]);
    assert_eq!(*w.get_object(&c).unwrap().parent(), Some(b));
    assert_eq!(w.find_object_by_name("b"), Some(b));
    assert_eq!(w.find_object_by_name("z"), None);
    // re-parenting moves the child
    GameObject::add_child(&mut w, a, c);
    assert_eq!(w.get_object(&b).unwrap().children(), &[] as &[GameObjectId]);
    assert_eq!(w.get_object(&a).unwrap().children(), &[b, c]);
    GameObject::unlink(&mut w, c);
    assert_eq!(*w.get_object(&c).unwrap().parent(), None);
    assert_eq!(w.get_object(&a).unwrap().children(), &[b]);
}

#[test]
fn delete_removes_the_subtree() {
    let mut w = World::new();
    let a = w.new_object("a".to_string());
    let b = w.new_object("b".to_string());
    let c = w.new_object("c".to_string());
    let d = w.new_object("d".to_string());
    w.add_child(a);
    w.add_child(d);
    GameObject::add_child(&mut w, a, b);
    GameObject::add_child(&mut w, b, c);
    let mut s: ComponentStorage<u32> = ComponentStorage::new();
    w.delete_object(&mut s, b);
    assert!(!b.exists_in(&w));
    assert!(!c.exists_in(&w));
    assert!(a.exists_in(&w));
    assert!(d.exists_in(&w));
    assert_eq!(w.get_object(&a).unwrap().children(), &[] as &[GameObjectId]);
    w.delete_object(&mut s, a);
    assert_eq!(w.children(), &[d]);
    assert_eq!(w.find_object_by_name("c"), None);
}

#[test]
fn camera_and_shutdown() {
    let mut w = World::new();
    assert!(w.active_camera().is_none());
    let cam = w.new_object("camera".to_string());
    w.set_active_camera(Some(cam));
    assert_eq!(w.active_camera(), Some(cam));
    assert!(!w.is_shutting_down());
    w.shutdown();
    assert!(w.is_shutting_down());
}

#[test]
fn first_camera_becomes_active() {
    let mut w = World::new();
    let a = w.new_object("Camera".to_string());
    assert_eq!(w.adopt_camera(a), a);
    assert_eq!(w.active_camera(), Some(a));
    assert_eq!(w.children(), &[a]);
    let b = w.new_object("Camera".to_string());
    w.adopt_camera(b);
    assert_eq!(w.active_camera(), Some(a));
    assert_eq!(w.children(), &[a]);
}
