use pooprusteek::string_map::StringMap;

#[test]
fn insert_replaces_and_keeps_order() {
    let mut m = StringMap::new();
    assert!(m.is_empty());
    m.insert("a".to_string(), "1".to_string());
    m.insert("b".to_string(), "2".to_string());
    m.insert("a".to_string(), "3".to_string());
    assert_eq!(m.len(), 2);
    assert_eq!(m.get("a").map(String::as_str), Some("3"));
    assert_eq!(m.entry(0), (&"a".to_string(), &"3".to_string()));
    assert_eq!(m.entry(1), (&"b".to_string(), &"2".to_string()));
    assert_eq!(m.get("z"), None);
}
