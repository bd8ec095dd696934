use vstd::prelude::*;
use crate::event::{Event, EventModel, views_of};

verus! {

/// Whether a piece of text is one well-formed JSON document. Its exact
/// grammar is the JSON parser's; the transform only needs the verdict.
pub uninterp spec fn json_parses(s: Seq<char>) -> bool;

/// Relies on serde_json::from_str::<Value>: whether a payload parses as a
/// JSON document depends on its characters alone.
#[verifier::external_body]
fn payload_is_json(s: &str) -> (r: bool)
    ensures
        r == json_parses(s@),
{
    serde_json::from_str::<serde_json::Value>(s).is_ok()
}

/// The subsequence of events whose payload is well-formed JSON, in order:
/// exactly the events the transform keeps. A malformed payload drops only
/// its own event, never the rest of the batch.
pub open spec fn kept_events(evs: Seq<EventModel>) -> Seq<EventModel>
    decreases evs.len(),
{
    if evs.len() == 0 {
        Seq::empty()
    } else if json_parses(evs.last().payload) {
        kept_events(evs.drop_last()).push(evs.last())
    } else {
        kept_events(evs.drop_last())
    }
}

/// A columnar bundle of events: one array per destination column, all of one
/// length, built once per flush and consumed by a single bulk write.
#[derive(Debug, PartialEq)]
pub struct DbEventVec {
    pub sources: Vec<String>,
    pub semantics: Vec<String>,
    pub names: Vec<String>,
    pub lamports: Vec<i64>,
    pub offsets: Vec<i64>,
    pub timestamps: Vec<i64>,
    pub payloads: Vec<String>,
}

impl DbEventVec {
    /// Number of rows in the bundle.
    pub open spec fn spec_len(self) -> nat {
        self.sources@.len()
    }

    /// All seven columns hold one value per row, and every offset is a valid
    /// zero-based store position.
    pub open spec fn wf(self) -> bool {
        &&& self.semantics@.len() == self.spec_len()
        &&& self.names@.len() == self.spec_len()
        &&& self.lamports@.len() == self.spec_len()
        &&& self.offsets@.len() == self.spec_len()
        &&& self.timestamps@.len() == self.spec_len()
        &&& self.payloads@.len() == self.spec_len()
        &&& forall|i: int| 0 <= i < self.spec_len() ==> #[trigger] self.offsets@[i] >= 0
    }

    /// The event that row `i` stands for.
    pub open spec fn row_at(self, i: int) -> EventModel {
        EventModel {
            source: self.sources@[i]@,
            semantics: self.semantics@[i]@,
            name: self.names@[i]@,
            lamport: self.lamports@[i] as int,
            offset: self.offsets@[i] as int,
            timestamp: self.timestamps@[i] as int,
            payload: self.payloads@[i]@,
        }
    }

    /// The bundle holds exactly the events `evs`, in order.
    pub open spec fn models(self, evs: Seq<EventModel>) -> bool {
        &&& self.spec_len() == evs.len()
        &&& self.semantics@.len() == evs.len()
        &&& self.names@.len() == evs.len()
        &&& self.lamports@.len() == evs.len()
        &&& self.offsets@.len() == evs.len()
        &&& self.timestamps@.len() == evs.len()
        &&& self.payloads@.len() == evs.len()
        &&& forall|i: int| 0 <= i < evs.len() ==> self.row_at(i) == evs[i]
    }

    /// An empty bundle with room for `capacity` rows.
    pub fn empty(capacity: usize) -> (rows: DbEventVec)
        ensures
            rows.wf(),
            rows.models(Seq::<EventModel>::empty()),
    {
        DbEventVec {
            sources: Vec::with_capacity(capacity),
            semantics: Vec::with_capacity(capacity),
            names: Vec::with_capacity(capacity),
            lamports: Vec::with_capacity(capacity),
            offsets: Vec::with_capacity(capacity),
            timestamps: Vec::with_capacity(capacity),
            payloads: Vec::with_capacity(capacity),
        }
    }

    /// Pure transform of a batch of events into one columnar bundle,
    /// preserving batch order. An event whose payload is not well-formed
    /// JSON is dropped from the bundle; it never fails the whole batch.
    pub fn from(events: &Vec<Event>) -> (rows: DbEventVec)
        requires
            forall|i: int| 0 <= i < events@.len() ==> (#[trigger] events@[i])@.fits_row(),
        ensures
            rows.wf(),
            rows.models(kept_events(views_of(events@))),
    {
        let mut rows = DbEventVec::empty(events.len());
        let n = events.len();
        for idx in 0..n
            invariant
                n == events@.len(),
                forall|i: int| 0 <= i < n ==> (#[trigger] events@[i])@.fits_row(),
                rows.wf(),
                rows.models(kept_events(views_of(events@).take(idx as int))),
        {
            proof {
                let views = views_of(events@);
                assert(views.take(idx as int + 1).drop_last() =~= views.take(idx as int));
                assert(views.take(idx as int + 1).last() == events@[idx as int]@);
            }
            let e = &events[idx];
            if payload_is_json(e.payload.as_str()) {
                rows.sources.push(e.source.clone());
                rows.semantics.push(e.semantics.clone());
                rows.names.push(e.name.clone());
                rows.lamports.push(e.lamport as i64);
                rows.offsets.push(e.offset as i64);
                rows.timestamps.push(e.timestamp as i64);
                rows.payloads.push(e.payload.clone());
            }
        }
        proof {
            assert(views_of(events@).take(n as int) =~= views_of(events@));
        }
        rows
    }

    /// Number of rows, for progress reporting.
    pub fn len(&self) -> (n: usize)
        ensures
            n == self.spec_len(),
    {
        self.sources.len()
    }
}

} // verus!
