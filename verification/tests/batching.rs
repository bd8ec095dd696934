use pgsink::batcher::{Batcher, ConfigError};
use pgsink::event::Event;

fn ev(lamport: u64, offset: u64) -> Event {
    Event {
        source: "src".to_string(),
        semantics: "sem".to_string(),
        name: "name".to_string(),
        lamport,
        offset,
        timestamp: 1000 + lamport,
        payload: "{}".to_string(),
    }
}

#[test]
fn count_trigger_splits_three_three_one() {
    // maxCount = 3, seven events with no delay: batches of sizes [3, 3, 1]
    // in arrival order.
    let mut b = Batcher::new(3, 1000);
    let mut batches: Vec<Vec<Event>> = Vec::new();
    for i in 0..7u64 {
        if let Some(batch) = b.push(ev(i, i), 0) {
            batches.push(batch);
        }
    }
    if let Some(batch) = b.finish() {
        batches.push(batch);
    }
    let sizes: Vec<usize> = batches.iter().map(|x| x.len()).collect();
    assert_eq!(sizes, vec![3, 3, 1]);
}

#[test]
fn order_is_preserved_across_batches() {
    // The concatenation of all emitted batches equals the input sequence.
    let input: Vec<Event> = (0..10u64).map(|i| ev(i, i)).collect();
    let mut b = Batcher::new(4, 1000);
    let mut out: Vec<Event> = Vec::new();
    for e in input.iter() {
        if let Some(batch) = b.push(e.clone(), 0) {
            out.extend(batch);
        }
    }
    if let Some(batch) = b.finish() {
        out.extend(batch);
    }
    assert_eq!(out, input);
}

#[test]
fn time_trigger_flushes_partial_batch() {
    // maxInterval = 100 ms and maxCount = 1000: two events followed by a
    // wait longer than the interval yield one batch of size 2, flushed by
    // the timer, not the count.
    let mut b = Batcher::new(1000, 100);
    assert!(b.push(ev(1, 0), 0).is_none());
    assert!(b.push(ev(2, 1), 5).is_none());
    assert!(b.poll(99).is_none());
    let batch = b.poll(101).expect("deadline passed, batch must flush");
    assert_eq!(batch.len(), 2);
    assert_eq!(batch[0].lamport, 1);
    assert_eq!(batch[1].lamport, 2);
    // Nothing left: the timer does not fire again on an empty buffer.
    assert!(b.poll(500).is_none());
}

#[test]
fn deadline_starts_with_first_item_of_a_batch() {
    let mut b = Batcher::new(10, 100);
    assert_eq!(b.deadline(), None);
    b.push(ev(1, 0), 40);
    assert_eq!(b.deadline(), Some(140));
    // A later event does not move the deadline of the open batch.
    b.push(ev(2, 1), 90);
    assert_eq!(b.deadline(), Some(140));
}

#[test]
fn stream_end_flushes_partial_batch() {
    let mut b = Batcher::new(100, 1000);
    b.push(ev(1, 0), 0);
    b.push(ev(2, 1), 0);
    b.push(ev(3, 2), 0);
    let last = b.finish().expect("partial batch must flush on stream end");
    assert_eq!(last.len(), 3);
    assert_eq!(b.pending_len(), 0);
    assert!(b.finish().is_none());
}

#[test]
fn single_event_batches_degenerate_to_per_event_delivery() {
    let mut b = Batcher::new(1, 1000);
    let one = b.push(ev(7, 7), 0).expect("maxCount = 1 flushes each event");
    assert_eq!(one.len(), 1);
    assert_eq!(one[0].lamport, 7);
    assert!(b.finish().is_none());
}

#[test]
fn zero_batch_count_is_rejected() {
    match Batcher::try_new(0, 100) {
        Err(e) => assert_eq!(e, ConfigError::ZeroBatchCount),
        Ok(_) => panic!("a zero batch count must be rejected"),
    }
}

#[test]
fn zero_batch_interval_is_rejected() {
    match Batcher::try_new(8, 0) {
        Err(e) => assert_eq!(e, ConfigError::ZeroBatchInterval),
        Ok(_) => panic!("a zero batch interval must be rejected"),
    }
}
