use pgsink::batcher::ConfigError;
use pgsink::db::{Db, DbConnection, MemDb};
use pgsink::event::Event;
use pgsink::pipeline::{Pipeline, PipelineState};
use pgsink::rows::DbEventVec;
use pgsink::table::Table;

fn ev(source: &str, lamport: u64, offset: u64) -> Event {
    Event {
        source: source.to_string(),
        semantics: "sem".to_string(),
        name: "name".to_string(),
        lamport,
        offset,
        timestamp: 1000 + lamport,
        payload: format!("{{\"o\":{}}}", offset),
    }
}

#[test]
fn non_positive_batch_parameters_are_fatal_at_startup() {
    match Pipeline::new(0, 1000) {
        Err(e) => assert_eq!(e, ConfigError::ZeroBatchCount),
        Ok(_) => panic!("a zero batch count must be rejected"),
    }
    match Pipeline::new(1024, 0) {
        Err(e) => assert_eq!(e, ConfigError::ZeroBatchInterval),
        Ok(_) => panic!("a zero batch interval must be rejected"),
    }
}

#[test]
fn clean_stream_end_exits_zero() {
    let mut p = Pipeline::new(8, 1000).unwrap();
    assert_eq!(p.state(), PipelineState::Init);
    p.start();
    assert_eq!(p.state(), PipelineState::FetchingOffsets);
    let sink = Table::new().get_offsets();
    let source = Table::new().get_offsets();
    p.on_offsets(sink, &source);
    assert_eq!(p.state(), PipelineState::Subscribing);
    p.on_subscribed();
    assert_eq!(p.state(), PipelineState::Streaming);
    assert!(p.on_event(ev("a", 1, 0), 0).is_none());
    p.on_insert_result(true);
    assert_eq!(p.state(), PipelineState::Streaming);
    let last = p.on_stream_end().expect("partial batch flushes on stream end");
    assert_eq!(last.len(), 1);
    assert_eq!(p.state(), PipelineState::Terminated);
    assert_eq!(p.exit_code(), 0);
}

#[test]
fn failed_write_is_fatal() {
    let mut p = Pipeline::new(8, 1000).unwrap();
    p.start();
    let empty_a = Table::new().get_offsets();
    let empty_b = Table::new().get_offsets();
    p.on_offsets(empty_a, &empty_b);
    p.on_subscribed();
    p.on_event(ev("a", 1, 0), 0);
    p.on_insert_result(false);
    assert_eq!(p.state(), PipelineState::Fatal);
    assert_eq!(p.exit_code(), 1);
}

#[test]
fn end_to_end_resume_scenario() {
    // The sink already holds a@0..a@5, so it reports {a: 5}; the source
    // reports {a: 10}; the subscription therefore resumes from a@6. Six
    // events a@6..a@11 arrive; with maxCount = 1024 and a 1 s interval they
    // flush as one batch at stream end; the table then holds six new rows
    // keyed (a,6)..(a,11). A second run redelivering a@6..a@8 inserts zero
    // additional rows.
    let db = MemDb {};
    let mut sink: Table = db.connect().unwrap();
    let preloaded: Vec<Event> = (0..=5u64).map(|o| ev("a", o, o)).collect();
    assert!(DbConnection::insert(&mut sink, &DbEventVec::from(&preloaded)));
    let sink_offsets = sink.get_offsets();
    assert_eq!(sink_offsets.get(&"a".to_string()), Some(5));

    let mut upstream = Table::new();
    upstream.insert(&DbEventVec::from(
        &(0..=10u64).map(|o| ev("a", o, o)).collect::<Vec<Event>>(),
    ));
    let source_offsets = upstream.get_offsets();
    assert_eq!(source_offsets.get(&"a".to_string()), Some(10));

    let mut p = Pipeline::new(1024, 1000).unwrap();
    p.start();
    let (resume, behind) = p.on_offsets(sink_offsets, &source_offsets);
    assert_eq!(resume.get(&"a".to_string()), Some(5));
    let first_unseen = resume.get(&"a".to_string()).unwrap() + 1;
    assert_eq!(first_unseen, 6);
    assert_eq!(behind, 5);
    p.on_subscribed();

    for o in 6..=11u64 {
        assert!(p.on_event(ev("a", o, o), 0).is_none());
        assert!(p.on_tick(500).is_none());
    }
    let batch = p.on_stream_end().expect("stream end flushes the open batch");
    assert_eq!(batch.len(), 6);
    sink.insert(&DbEventVec::from(&batch));
    assert_eq!(sink.len(), 12);
    let after = sink.get_offsets();
    assert_eq!(after.get(&"a".to_string()), Some(11));

    // Second run with identical resume state, redelivering a@6..a@8.
    let redelivered: Vec<Event> = (6..=8u64).map(|o| ev("a", o, o)).collect();
    sink.insert(&DbEventVec::from(&redelivered));
    assert_eq!(sink.len(), 12);
    assert_eq!(p.exit_code(), 0);
}
