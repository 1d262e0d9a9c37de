use plugin_scaffold::table::Table;

#[test]
fn new_table_is_empty() {
    let table: Table<String> = Table::new();
    assert_eq!(table.len(), 0);
    assert_eq!(table.get("a"), None);
    assert_eq!(table.position("a"), None);
    assert!(table.entry(0).is_none());
}

#[test]
fn put_adds_new_keys_at_the_end() {
    let mut table: Table<String> = Table::new();
    table.put("b", "2".to_string());
    table.put("a", "1".to_string());
    assert_eq!(table.len(), 2);
    assert_eq!(table.position("b"), Some(0));
    assert_eq!(table.position("a"), Some(1));
    assert_eq!(table.get("a"), Some(&"1".to_string()));
    assert_eq!(table.get("b"), Some(&"2".to_string()));
}

#[test]
fn put_overwrites_in_place() {
    let mut table: Table<Vec<u8>> = Table::new();
    table.put("x", vec![1]);
    table.put("y", vec![2]);
    table.put("x", vec![3, 4]);
    assert_eq!(table.len(), 2);
    assert_eq!(table.position("x"), Some(0));
    assert_eq!(table.get("x"), Some(&vec![3, 4]));
    assert_eq!(table.get("y"), Some(&vec![2]));
}

#[test]
fn entry_walks_in_insertion_order() {
    let mut table: Table<String> = Table::new();
    table.put("first", "1".to_string());
    table.put("second", "2".to_string());
    let (key, value) = table.entry(0).unwrap();
    assert_eq!((key.as_str(), value.as_str()), ("first", "1"));
    let (key, value) = table.entry(1).unwrap();
    assert_eq!((key.as_str(), value.as_str()), ("second", "2"));
    assert!(table.entry(2).is_none());
}

#[test]
fn keys_are_compared_by_their_characters() {
    let mut table: Table<String> = Table::new();
    table.put("a/b", "1".to_string());
    assert_eq!(table.get("a/b"), Some(&"1".to_string()));
    assert_eq!(table.get("a/B"), None);
    assert_eq!(table.get("a/b "), None);
    assert_eq!(table.get(""), None);
}
