use pgsink::event::Event;
use pgsink::rows::DbEventVec;

fn ev(
    source: &str,
    semantics: &str,
    name: &str,
    lamport: u64,
    offset: u64,
    timestamp: u64,
    payload: &str,
) -> Event {
    Event {
        source: source.to_string(),
        semantics: semantics.to_string(),
        name: name.to_string(),
        lamport,
        offset,
        timestamp,
        payload: payload.to_string(),
    }
}

#[test]
fn convert_events_to_db_event_vec() {
    let events = vec![
        ev("foo", "foo.semantics", "foo.name", 10, 11, 12, r#"{"foo":"foo"}"#),
        ev("bar", "bar.semantics", "bar.name", 20, 21, 22, r#"{"bar":"bar"}"#),
    ];

    let expected = DbEventVec {
        sources: vec!["foo".to_string(), "bar".to_string()],
        semantics: vec!["foo.semantics".to_string(), "bar.semantics".to_string()],
        names: vec!["foo.name".to_string(), "bar.name".to_string()],
        lamports: vec![10, 20],
        offsets: vec![11, 21],
        timestamps: vec![12, 22],
        payloads: vec![r#"{"foo":"foo"}"#.to_string(), r#"{"bar":"bar"}"#.to_string()],
    };

    let actual = DbEventVec::from(&events);

    assert_eq!(actual, expected);
}

#[test]
fn malformed_payload_is_isolated() {
    // Five events, one with an unparseable payload: four rows come out and
    // the batch as a whole is not aborted.
    let events = vec![
        ev("a", "s", "n", 1, 0, 100, r#"{"k":1}"#),
        ev("a", "s", "n", 2, 1, 101, r#"{"k":2}"#),
        ev("a", "s", "n", 3, 2, 102, r#"{"k":"#),
        ev("a", "s", "n", 4, 3, 103, "[1,2,3]"),
        ev("a", "s", "n", 5, 4, 104, "null"),
    ];

    let rows = DbEventVec::from(&events);

    assert_eq!(rows.len(), 4);
    assert_eq!(rows.lamports, vec![1, 2, 4, 5]);
    assert_eq!(rows.offsets, vec![0, 1, 3, 4]);
    assert_eq!(
        rows.payloads,
        vec![
            r#"{"k":1}"#.to_string(),
            r#"{"k":2}"#.to_string(),
            "[1,2,3]".to_string(),
            "null".to_string()
        ]
    );
}

#[test]
fn empty_bundle_has_no_rows() {
    let rows = DbEventVec::empty(16);
    assert_eq!(rows.len(), 0);
    assert_eq!(rows, DbEventVec::from(&Vec::new()));
}
