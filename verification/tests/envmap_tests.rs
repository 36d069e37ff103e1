use envz::envmap::EnvMap;

#[test]
fn insert_then_get_and_update() {
    let mut m = EnvMap::new();
    assert!(m.is_empty());
    assert_eq!(m.insert("B".to_string(), "1".to_string()), None);
    assert_eq!(m.insert("A".to_string(), "2".to_string()), None);
    assert_eq!(m.insert("B".to_string(), "3".to_string()), Some("1".to_string()));
    assert_eq!(m.len(), 2);
    assert_eq!(m.get("B").unwrap(), "3");
    assert_eq!(m.get("A").unwrap(), "2");
    assert!(m.get("C").is_none());
    assert!(m.contains_key("A"));
    assert!(!m.contains_key("a"));
}

#[test]
fn remove_returns_old_value() {
    let mut m = EnvMap::new();
    m.insert("X".to_string(), "x".to_string());
    assert_eq!(m.remove("Y"), None);
    assert_eq!(m.remove("X"), Some("x".to_string()));
    assert!(m.is_empty());
}

#[test]
fn entries_are_sorted_by_byte_order() {
    let mut m = EnvMap::new();
    for k in ["b", "B", "é", "_", "a1", "a"] {
        m.insert(k.to_string(), String::new());
    }
    let names: Vec<&str> = m.entries().iter().map(|(k, _)| k.as_str()).collect();
    assert_eq!(names, vec!["B", "_", "a", "a1", "b", "é"]);
}

#[test]
fn from_pairs_keeps_last_value() {
    let pairs = vec![
        ("K".to_string(), "1".to_string()),
        ("J".to_string(), "2".to_string()),
        ("K".to_string(), "3".to_string()),
    ];
    let m = EnvMap::from_pairs(&pairs);
    assert_eq!(m.len(), 2);
    assert_eq!(m.get("K").unwrap(), "3");
}
