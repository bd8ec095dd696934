use vstd::prelude::*;

verus! {

/// Mathematical model of one event: every field as a plain mathematical value.
pub ghost struct EventModel {
    pub source: Seq<char>,
    pub semantics: Seq<char>,
    pub name: Seq<char>,
    pub lamport: int,
    pub offset: int,
    pub timestamp: int,
    pub payload: Seq<char>,
}

/// One immutable record from the source stream.
///
/// `offset` is the store-assigned, zero-based position of the event within its
/// source's stream and is the resume cursor; `lamport` is the per-source
/// logical clock, carried through for audit only; `timestamp` is advisory
/// producer wall-clock time. `payload` is the event's structured value as
/// JSON text.
#[derive(Clone, Debug, PartialEq)]
pub struct Event {
    pub source: String,
    pub semantics: String,
    pub name: String,
    pub lamport: u64,
    pub offset: u64,
    pub timestamp: u64,
    pub payload: String,
}

impl View for Event {
    type V = EventModel;

    open spec fn view(&self) -> EventModel {
        EventModel {
            source: self.source@,
            semantics: self.semantics@,
            name: self.name@,
            lamport: self.lamport as int,
            offset: self.offset as int,
            timestamp: self.timestamp as int,
            payload: self.payload@,
        }
    }
}

impl EventModel {
    /// The destination row uses 64-bit signed columns, so an event fits a row
    /// exactly when its counters do not exceed `i64::MAX`.
    pub open spec fn fits_row(self) -> bool {
        &&& self.lamport <= i64::MAX
        &&& self.offset <= i64::MAX
        &&& self.timestamp <= i64::MAX
    }
}

/// The per-element views of a sequence of events, in order.
pub open spec fn views_of(evs: Seq<Event>) -> Seq<EventModel> {
    evs.map_values(|e: Event| e@)
}

} // verus!
