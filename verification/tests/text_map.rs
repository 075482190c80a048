use fabro::text_map::TextMap;

fn map(keys: &[&str]) -> TextMap<usize> {
    let mut map = TextMap::new();
    for (i, key) in keys.iter().enumerate() {
        map.insert(key.to_string(), i);
    }
    map
}

#[test]
fn removed_keys_leave_the_others_in_their_order() {
    let mut entries = map(&["c", "a", "b"]);
    assert_eq!(entries.remove("a"), Some(1));
    assert_eq!(entries.key_list(), vec!["c".to_string(), "b".to_string()]);
    assert_eq!(entries.remove("a"), None);
    assert_eq!(
        entries.into_entries(),
        vec![("c".to_string(), 0), ("b".to_string(), 2)]
    );
}

#[test]
fn keys_are_listed_once() {
    let entries = map(&["x", "y", "x"]);
    assert_eq!(entries.key_list(), vec!["x".to_string(), "y".to_string()]);
    assert_eq!(entries.get("x"), Some(&2));
    assert!(map(&[]).key_list().is_empty());
}
