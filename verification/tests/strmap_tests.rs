use kawaii_launcher::strmap::StrMap;

#[test]
fn new_map_is_empty() {
    let m: StrMap<u32> = StrMap::new();
    assert_eq!(m.len(), 0);
    assert_eq!(m.get(&"a".to_string()), None);
}

#[test]
fn read_after_write_gives_value() {
    let mut m = StrMap::new();
    m.insert("client".to_string(), 7u32);
    assert_eq!(m.get(&"client".to_string()), Some(&7));
    assert_eq!(m.get(&"server".to_string()), None);
}

#[test]
fn second_write_replaces_first_in_place() {
    let mut m = StrMap::new();
    m.insert("a".to_string(), 1u32);
    m.insert("b".to_string(), 2u32);
    m.insert("a".to_string(), 3u32);
    assert_eq!(m.len(), 2);
    assert_eq!(m.get(&"a".to_string()), Some(&3));
    assert_eq!(m.get(&"b".to_string()), Some(&2));
    let (k, v) = m.entry(0);
    assert_eq!(k, "a");
    assert_eq!(*v, 3);
    let entries = m.into_entries();
    assert_eq!(entries, vec![("a".to_string(), 3u32), ("b".to_string(), 2u32)]);
}

#[test]
fn write_leaves_other_keys_alone() {
    let mut m = StrMap::new();
    m.insert("x".to_string(), 10u32);
    m.insert("y".to_string(), 20u32);
    m.insert("z".to_string(), 30u32);
    assert_eq!(m.get(&"x".to_string()), Some(&10));
    assert_eq!(m.get(&"y".to_string()), Some(&20));
    assert_eq!(m.entry(2).0, "z");
}
