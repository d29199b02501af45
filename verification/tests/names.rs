//! The table of names.

use teac::common::names::{same_name, NameMap};

#[test]
fn a_table_keeps_its_order() {
    let mut t = NameMap::new();
    t.insert("b".to_string(), 1);
    t.insert("a".to_string(), 2);
    t.insert("b".to_string(), 3);
    assert_eq!(t.len(), 2);
    assert_eq!(t.name_at(0), "b");
    assert_eq!(*t.value_at(0), 3);
    assert_eq!(t.name_at(1), "a");
    assert_eq!(t.get("a"), Some(&2));
    assert_eq!(t.get("c"), None);
    assert_eq!(t.find("a"), Some(1));
    assert!(t.contains_key("b"));
    assert!(!t.contains_key("c"));
}

#[test]
fn names_are_compared_by_their_characters() {
    assert!(same_name("self", "self"));
    assert!(!same_name("self", "Self"));
    assert!(!same_name("", "a"));
}
