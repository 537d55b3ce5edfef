use bindgen_link::table::NameTable;

#[test]
fn insert_replaces_and_remove_hands_back() {
    let mut t: NameTable<u32> = NameTable::new();
    assert_eq!(t.insert("a".to_string(), 1), None);
    assert_eq!(t.insert("b".to_string(), 2), None);
    assert_eq!(t.insert("a".to_string(), 3), Some(1));
    assert_eq!(t.get(&"a".to_string()), Some(&3));
    assert!(t.contains_key(&"b".to_string()));
    assert_eq!(t.entries().len(), 2);
    assert_eq!(t.remove(&"b".to_string()), Some(2));
    assert_eq!(t.remove(&"b".to_string()), None);
    assert!(!t.contains_key(&"b".to_string()));
    assert_eq!(t.entries().len(), 1);
}
