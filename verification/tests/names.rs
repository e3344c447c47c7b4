use lazygocd::names::{comes_before, NameMap, NameSet};

#[test]
fn a_set_holds_each_name_once_in_order() {
    let mut s = NameSet::new();
    assert!(s.is_empty());
    assert!(s.insert("b"));
    assert!(s.insert("a"));
    assert!(!s.insert("b"));
    assert_eq!(s.len(), 2);
    assert_eq!(*s.names(), vec!["a".to_string(), "b".to_string()]);
    assert!(s.contains("a"));
    assert!(s.remove("a"));
    assert!(!s.remove("a"));
    assert!(!s.contains("a"));
    let t = NameSet::from_names(&vec!["z".to_string(), "y".to_string(), "z".to_string()]);
    assert_eq!(*t.names(), vec!["y".to_string(), "z".to_string()]);
}

#[test]
fn a_map_holds_the_last_value_of_a_name() {
    let mut m: NameMap<u64> = NameMap::new();
    m.insert("a", 1);
    m.insert("b", 2);
    m.insert("a", 3);
    assert_eq!(m.len(), 2);
    assert_eq!(m.get("a"), Some(&3));
    assert_eq!(m.get("c"), None);
    m.remove("a");
    assert_eq!(m.get("a"), None);
    assert_eq!(*m.names(), vec!["b".to_string()]);
}

#[test]
fn names_are_ordered_as_text() {
    for (a, b) in [("a", "b"), ("a", "aa"), ("B", "a"), ("", "a"), ("z", "\u{e9}")] {
        assert!(comes_before(a, b));
        assert!(!comes_before(b, a));
        assert!(a < b);
    }
    assert!(!comes_before("a", "a"));
}
