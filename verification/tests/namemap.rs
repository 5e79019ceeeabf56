use log_stat::namemap::NameMap;

#[test]
fn names_keep_their_order() {
    let mut map: NameMap<u32> = NameMap::new();
    assert_eq!(map.len(), 0);
    assert_eq!(map.get("a"), None);
    assert_eq!(map.position("a"), None);
    map.insert_new("b".to_string(), 2);
    map.insert_new("a".to_string(), 1);
    map.insert_new("".to_string(), 0);
    map.insert_new("ab".to_string(), 12);
    assert_eq!(map.len(), 4);
    assert_eq!(map.names, ["b", "a", "", "ab"]);
    assert_eq!(map.values, [2, 1, 0, 12]);
    assert_eq!(map.position("b"), Some(0));
    assert_eq!(map.position("a"), Some(1));
    assert_eq!(map.position(""), Some(2));
    assert_eq!(map.position("ab"), Some(3));
    assert_eq!(map.position("ba"), None);
    assert_eq!(map.position("A"), None);
    assert_eq!(map.get("ab"), Some(&12));
    assert_eq!(map.get("abc"), None);
    assert_eq!(NameMap::<u32>::default(), NameMap::new());
}

#[test]
fn names_are_compared_character_by_character() {
    let mut map: NameMap<u8> = NameMap::new();
    map.insert_new("caf\u{e9}".to_string(), 1);
    map.insert_new("cafe\u{301}".to_string(), 2);
    assert_eq!(map.get("caf\u{e9}"), Some(&1));
    assert_eq!(map.get("cafe\u{301}"), Some(&2));
    assert_eq!(map.get("cafe"), None);
    assert!(log_stat::text::same_text("", ""));
    assert!(log_stat::text::same_text("journal", "journal"));
    assert!(!log_stat::text::same_text("journal", "journa"));
    assert!(!log_stat::text::same_text("journal", "journaL"));
    assert_eq!(log_stat::text::byte_len("h\u{e9}llo"), 6);
    assert_eq!(log_stat::text::byte_len(""), 0);
}

#[test]
fn a_name_is_found_or_put_behind_the_others() {
    let mut map: NameMap<usize> = NameMap::new();
    assert_eq!(map.position_or_insert("kernel", 0), 0);
    map.values[0] += 1;
    assert_eq!(map.position_or_insert("audit", 0), 1);
    map.values[1] += 1;
    assert_eq!(map.position_or_insert("kernel", 7), 0);
    map.values[0] += 1;
    assert_eq!(map.names, ["kernel", "audit"]);
    assert_eq!(map.values, [2, 1]);
    assert_eq!(map.get("kernel"), Some(&2));
    assert_eq!(map.len(), 2);
}
