use llama_mesh::table::Table;

#[test]
fn names_are_distinct() {
    let mut t: Table<u32> = Table::new();
    assert_eq!(t.len(), 0);
    t.insert("a".to_string(), 1);
    t.insert("b".to_string(), 2);
    t.insert("a".to_string(), 3);
    assert_eq!(t.len(), 2);
    assert_eq!(t.get("a"), Some(&3));
    assert_eq!(t.get("b"), Some(&2));
    assert_eq!(t.get("c"), None);
}

#[test]
fn positions_list_the_entries() {
    let mut t: Table<u32> = Table::new();
    t.insert("a".to_string(), 1);
    t.insert("b".to_string(), 2);
    let mut seen: Vec<(String, u32)> = Vec::new();
    for i in 0..t.len() {
        seen.push((t.name_at(i).to_string(), *t.value_at(i)));
    }
    seen.sort();
    assert_eq!(seen, vec![("a".to_string(), 1), ("b".to_string(), 2)]);
}

#[test]
fn removing_takes_out_one_entry() {
    let mut t: Table<u32> = Table::new();
    t.insert("a".to_string(), 1);
    t.insert("b".to_string(), 2);
    t.remove("c");
    assert_eq!(t.len(), 2);
    t.remove("a");
    assert_eq!(t.len(), 1);
    assert_eq!(t.get("a"), None);
    assert_eq!(t.get("b"), Some(&2));
}

#[test]
fn values_change_in_place() {
    let mut t: Table<u32> = Table::new();
    t.insert("a".to_string(), 1);
    assert!(t.get_mut("b").is_none());
    *t.get_mut("a").unwrap() = 5;
    assert_eq!(t.get("a"), Some(&5));
}
