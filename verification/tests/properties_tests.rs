use serde_json::Value;
use syrillian::scene::{GameObject, World};

#[test]
fn properties_are_kept_read_and_replaced() {
    let mut w = World::new();
    let a = w.new_object("a".to_string());
    assert!(w.get_object(&a).unwrap().properties().is_empty());
    GameObject::add_property(&mut w, a, "speed".to_string(), Value::from(3));
    GameObject::add_property(&mut w, a, "label".to_string(), Value::from("door"));
    let o = w.get_object(&a).unwrap();
    assert!(o.has_property("speed"));
    assert!(!o.has_property("missing"));
    assert_eq!(o.property("speed"), Some(&Value::from(3)));
    assert_eq!(o.property("label"), Some(&Value::from("door")));
    assert_eq!(o.properties().len(), 2);

    GameObject::add_property(&mut w, a, "speed".to_string(), Value::from(5));
    let o = w.get_object(&a).unwrap();
    assert_eq!(o.property("speed"), Some(&Value::from(5)));
    assert_eq!(o.properties().len(), 2);
    assert_eq!(o.properties()[1].0, "speed");
}

#[test]
fn removing_and_clearing_properties() {
    let mut w = World::new();
    let a = w.new_object("a".to_string());
    let b = w.new_object("b".to_string());
    GameObject::add_properties(
        &mut w,
        a,
        vec![
            ("x".to_string(), Value::from(1)),
            ("y".to_string(), Value::Bool(true)),
            ("x".to_string(), Value::from(2)),
        ],
    );
    GameObject::add_property(&mut w, b, "x".to_string(), Value::Null);
    assert_eq!(w.get_object(&a).unwrap().properties().len(), 2);
    assert_eq!(w.get_object(&a).unwrap().property("x"), Some(&Value::from(2)));

    assert_eq!(GameObject::remove_property(&mut w, a, "x"), Some(Value::from(2)));
    assert_eq!(GameObject::remove_property(&mut w, a, "x"), None);
    assert!(!w.get_object(&a).unwrap().has_property("x"));
    assert!(w.get_object(&a).unwrap().has_property("y"));
    assert_eq!(w.get_object(&b).unwrap().property("x"), Some(&Value::Null));

    GameObject::clear_properties(&mut w, a);
    assert!(w.get_object(&a).unwrap().properties().is_empty());
    assert!(w.get_object(&b).unwrap().has_property("x"));
}

#[test]
fn properties_survive_relinking() {
    let mut w = World::new();
    let a = w.new_object("a".to_string());
    let b = w.new_object("b".to_string());
    GameObject::add_property(&mut w, b, "k".to_string(), Value::from("v"));
    GameObject::add_child(&mut w, a, b);
    w.add_child(a);
    assert_eq!(w.get_object(&b).unwrap().property("k"), Some(&Value::from("v")));
}
