use pgsink::offsets::OffsetMap;

fn map_of(pairs: &[(&str, u64)]) -> OffsetMap {
    let mut m = OffsetMap::new();
    for (s, o) in pairs {
        m.update_max(&s.to_string(), *o);
    }
    m
}

#[test]
fn update_max_never_lowers_an_offset() {
    let mut m = OffsetMap::new();
    m.update_max(&"a".to_string(), 5);
    m.update_max(&"a".to_string(), 3);
    assert_eq!(m.get(&"a".to_string()), Some(5));
    m.update_max(&"a".to_string(), 9);
    assert_eq!(m.get(&"a".to_string()), Some(9));
}

#[test]
fn resume_cursor_admits_only_unseen_offsets() {
    let sink = map_of(&[("a", 5)]);
    assert!(!sink.admits(&"a".to_string(), 4));
    assert!(!sink.admits(&"a".to_string(), 5));
    assert!(sink.admits(&"a".to_string(), 6));
    assert!(sink.admits(&"b".to_string(), 0));
}

#[test]
fn merge_keeps_the_larger_offset_per_source() {
    let mut left = map_of(&[("a", 10), ("b", 2)]);
    let right = map_of(&[("b", 7), ("c", 1)]);
    left.merge(&right);
    assert_eq!(left.get(&"a".to_string()), Some(10));
    assert_eq!(left.get(&"b".to_string()), Some(7));
    assert_eq!(left.get(&"c".to_string()), Some(1));
}

#[test]
fn size_counts_events_with_zero_based_offsets() {
    assert_eq!(OffsetMap::new().size(), 0);
    assert_eq!(map_of(&[("a", 0)]).size(), 1);
    assert_eq!(map_of(&[("a", 10)]).size(), 11);
    assert_eq!(map_of(&[("a", 10), ("b", 5)]).size(), 17);
}

#[test]
fn size_delta_counts_events_not_accounted_for() {
    let store = map_of(&[("a", 10)]);
    let sink = map_of(&[("a", 5)]);
    assert_eq!(store.size_delta(&sink), 5);
    assert_eq!(sink.size_delta(&store), 0);
    assert_eq!(store.size_delta(&OffsetMap::new()), 11);

    let two = map_of(&[("a", 10), ("b", 3)]);
    assert_eq!(two.size_delta(&sink), 5 + 4);
}
