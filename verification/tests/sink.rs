use pgsink::event::Event;
use pgsink::offsets::OffsetMap;
use pgsink::rows::DbEventVec;
use pgsink::table::Table;

fn ev(source: &str, lamport: u64, offset: u64, payload: &str) -> Event {
    Event {
        source: source.to_string(),
        semantics: "sem".to_string(),
        name: "name".to_string(),
        lamport,
        offset,
        timestamp: 1000 + lamport,
        payload: payload.to_string(),
    }
}

fn bundle(events: &Vec<Event>) -> DbEventVec {
    DbEventVec::from(events)
}

#[test]
fn inserting_a_batch_twice_equals_inserting_it_once() {
    // Idempotent resume: redelivery of a whole batch is absorbed.
    let events = vec![
        ev("a", 1, 0, r#"{"v":0}"#),
        ev("a", 2, 1, r#"{"v":1}"#),
        ev("b", 3, 0, r#"{"v":2}"#),
    ];
    let batch = bundle(&events);

    let mut once = Table::new();
    once.insert(&batch);

    let mut twice = Table::new();
    twice.insert(&batch);
    twice.insert(&batch);

    assert_eq!(once, twice);
    assert_eq!(twice.len(), 3);
}

#[test]
fn key_collision_is_a_no_op_not_an_overwrite() {
    let first = bundle(&vec![ev("a", 1, 5, r#"{"first":true}"#)]);
    let redelivered = bundle(&vec![ev("a", 9, 5, r#"{"second":true}"#)]);

    let mut t = Table::new();
    t.insert(&first);
    t.insert(&redelivered);

    let mut expected = Table::new();
    expected.insert(&first);
    assert_eq!(t, expected);
    assert_eq!(t.len(), 1);
}

#[test]
fn duplicate_key_inside_one_batch_is_tolerated() {
    let batch = bundle(&vec![ev("a", 1, 3, r#"{"n":1}"#), ev("a", 2, 3, r#"{"n":2}"#)]);
    let mut t = Table::new();
    t.insert(&batch);
    assert_eq!(t.len(), 1);
}

#[test]
fn offsets_report_the_per_source_maximum() {
    // Offset monotonicity: after a successful insert of offsets up to n for
    // a source, the reported offset for that source is at least n.
    let batch = bundle(&vec![
        ev("a", 1, 1, "{}"),
        ev("a", 2, 5, "{}"),
        ev("a", 3, 3, "{}"),
        ev("b", 4, 0, "{}"),
    ]);
    let mut t = Table::new();
    t.insert(&batch);

    let om: OffsetMap = t.get_offsets();
    assert_eq!(om.get(&"a".to_string()), Some(5));
    assert_eq!(om.get(&"b".to_string()), Some(0));
    assert_eq!(om.get(&"c".to_string()), None);
}

#[test]
fn malformed_rows_never_reach_the_table() {
    let events = vec![
        ev("a", 1, 0, r#"{"ok":1}"#),
        ev("a", 2, 1, "not json"),
        ev("a", 3, 2, r#"{"ok":2}"#),
    ];
    let mut t = Table::new();
    t.insert(&bundle(&events));
    assert_eq!(t.len(), 2);
    let om = t.get_offsets();
    assert_eq!(om.get(&"a".to_string()), Some(2));
}
