use snippit::variables::VariableMap;

#[test]
fn new_map_is_empty() {
    let vars = VariableMap::new();
    assert!(vars.is_empty());
    assert_eq!(vars.len(), 0);
    assert!(vars.get("a").is_none());
    assert_eq!(vars.position("a"), None);
}

#[test]
fn insert_appends_new_names() {
    let mut vars = VariableMap::new();
    vars.insert("a".to_string(), "1".to_string());
    vars.insert("b".to_string(), "2".to_string());
    assert_eq!(vars.len(), 2);
    assert!(!vars.is_empty());
    assert_eq!(vars.position("a"), Some(0));
    assert_eq!(vars.position("b"), Some(1));
    assert_eq!(vars.get("b").map(|v| v.as_str()), Some("2"));
}

#[test]
fn insert_overwrites_in_place() {
    let mut vars = VariableMap::new();
    vars.insert("a".to_string(), "1".to_string());
    vars.insert("b".to_string(), "2".to_string());
    vars.insert("a".to_string(), "3".to_string());
    assert_eq!(vars.len(), 2);
    assert_eq!(vars.key_at(0).as_str(), "a");
    assert_eq!(vars.value_at(0).as_str(), "3");
    assert_eq!(vars.key_at(1).as_str(), "b");
    assert_eq!(vars.value_at(1).as_str(), "2");
}

#[test]
fn names_match_exactly() {
    let mut vars = VariableMap::new();
    vars.insert("name".to_string(), "x".to_string());
    assert!(vars.get("Name").is_none());
    assert!(vars.get("name ").is_none());
    assert!(vars.get("").is_none());
    vars.insert(String::new(), "empty".to_string());
    assert_eq!(vars.get("").map(|v| v.as_str()), Some("empty"));
}
