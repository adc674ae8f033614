use bevy_webgl2::table::IdTable;

#[test]
fn table_insert_get_remove() {
    let mut t: IdTable<u32> = IdTable::new();
    assert!(!t.contains_key(5));
    t.insert(5, 50);
    t.insert(6, 60);
    assert_eq!(t.get(5), Some(&50));
    t.insert(5, 55);
    assert_eq!(t.get(5), Some(&55));
    assert_eq!(t.remove(5), Some(55));
    assert_eq!(t.get(5), None);
    assert_eq!(t.remove(5), None);
    assert_eq!(t.get(6), Some(&60));
    t.clear();
    assert!(!t.contains_key(6));
}
