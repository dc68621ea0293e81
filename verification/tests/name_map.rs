//! The map keyed by names.

use self_kvm::name_map::NameMap;

#[test]
fn entries_are_found_and_replaced() {
    let mut m = NameMap::new();
    m.insert("a".to_string(), 1);
    m.insert("b".to_string(), 2);
    m.insert("a".to_string(), 3);
    assert_eq!(m.len(), 2);
    assert_eq!(m.get("a"), Some(&3));
    assert_eq!(m.get("c"), None);
    assert!(m.contains_key("b"));
    assert_eq!(m.name_at(0), "a");
    assert_eq!(*m.value_at(1), 2);
    *m.get_mut("b").unwrap() = 5;
    assert_eq!(m.get("b"), Some(&5));
    assert!(m.get_mut("c").is_none());
    assert_eq!(m.remove("a"), Some(3));
    assert_eq!(m.remove("a"), None);
    assert_eq!(m.len(), 1);
}

#[test]
fn equality_does_not_depend_on_the_order() {
    let mut a = NameMap::default();
    a.insert("x".to_string(), 1);
    a.insert("y".to_string(), 2);
    let mut b = NameMap::new();
    b.insert("y".to_string(), 2);
    b.insert("x".to_string(), 1);
    assert!(a == b);
    assert!(a.clone() == b);
    b.insert("z".to_string(), 3);
    assert!(a != b);
    assert!(b != a);
}
