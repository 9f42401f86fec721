use backend::string_map::StringMap;

#[test]
fn map_keeps_the_last_value_of_a_key() {
    let mut map: StringMap<String> = StringMap::new();
    assert_eq!(map.len(), 0);
    assert!(map.get("a").is_none());
    map.insert("a".to_string(), "1".to_string());
    map.insert("b".to_string(), "2".to_string());
    map.insert("a".to_string(), "3".to_string());
    assert_eq!(map.len(), 2);
    assert_eq!(map.get("a"), Some(&"3".to_string()));
    assert_eq!(map.get("b"), Some(&"2".to_string()));
    assert!(map.contains_key("a"));
    assert!(!map.contains_key("A"));
}

#[test]
fn removing_a_key_leaves_the_others() {
    let mut map: StringMap<String> = StringMap::new();
    for key in ["a", "b", "c"] {
        map.insert(key.to_string(), key.to_uppercase());
    }
    assert!(map.remove("b"));
    assert!(!map.remove("b"));
    assert!(!map.remove("z"));
    assert_eq!(map.len(), 2);
    assert_eq!(map.get("a"), Some(&"A".to_string()));
    assert_eq!(map.get("c"), Some(&"C".to_string()));
    assert!(map.get("b").is_none());
}

#[test]
fn entries_can_be_walked() {
    let mut map: StringMap<String> = StringMap::new();
    map.insert("x".to_string(), "1".to_string());
    map.insert("y".to_string(), "2".to_string());
    map.insert("x".to_string(), "3".to_string());
    let mut seen: Vec<(String, String)> = Vec::new();
    for i in 0..map.len() {
        let (key, value) = map.entry_at(i);
        seen.push((key.clone(), value.clone()));
    }
    seen.sort();
    assert_eq!(
        seen,
        vec![("x".to_string(), "3".to_string()), ("y".to_string(), "2".to_string())]
    );
}
