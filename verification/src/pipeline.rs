use vstd::prelude::*;
use crate::batcher::{Batcher, ConfigError};
use crate::event::{Event, EventModel, views_of};
use crate::offsets::{OffsetMap, spec_size_delta};

verus! {

/// Lifecycle of one pipeline run.
#[derive(Clone, Copy, Debug, PartialEq, Eq, Structural)]
pub enum PipelineState {
    /// Collaborators constructed, not yet connected.
    Init,
    /// Waiting for the sink's and the source's offset maps.
    FetchingOffsets,
    /// The resume cursor is known; the live subscription is being opened
    /// strictly after it.
    Subscribing,
    /// The subscription is open and batches flow to the sink, one write in
    /// flight at a time.
    Streaming,
    /// The upstream subscription ended cleanly; the run exits with status 0.
    Terminated,
    /// An unrecoverable error; the run exits with a non-zero status.
    Fatal,
}

/// The decision core of the pipeline orchestrator. The surrounding process
/// performs all I/O — fetching the two offset maps, reading the live
/// subscription, writing batches — and feeds every outcome in here; this
/// state machine decides what follows: where to resume, when a batch is
/// flushed, and when the run ends and with which status.
pub struct Pipeline {
    state: PipelineState,
    batcher: Batcher,
}

impl Pipeline {
    /// The current lifecycle state.
    pub closed spec fn spec_state(self) -> PipelineState {
        self.state
    }

    /// The embedded batching stage.
    pub closed spec fn spec_batcher(self) -> Batcher {
        self.batcher
    }

    pub open spec fn inv(self) -> bool {
        self.spec_batcher().inv()
    }

    /// Construct a pipeline, rejecting non-positive batch parameters as
    /// fatal configuration errors before any connection is attempted.
    pub fn new(max_batch_records: usize, max_batch_interval_ms: u64) -> (r: Result<
        Pipeline,
        ConfigError,
    >)
        ensures
            max_batch_records == 0 ==> r == Err::<Pipeline, ConfigError>(
                ConfigError::ZeroBatchCount,
            ),
            max_batch_records >= 1 && max_batch_interval_ms == 0 ==> r == Err::<
                Pipeline,
                ConfigError,
            >(ConfigError::ZeroBatchInterval),
            max_batch_records >= 1 && max_batch_interval_ms >= 1 ==> (r matches Ok(p) && p.inv()
                && p.spec_state() == PipelineState::Init
                && p.spec_batcher().spec_max_count() == max_batch_records
                && p.spec_batcher().spec_max_interval() == max_batch_interval_ms
                && p.spec_batcher().spec_pushed() == Seq::<EventModel>::empty()
                && p.spec_batcher().spec_emitted() == Seq::<EventModel>::empty()
                && p.spec_batcher().spec_pending() == Seq::<EventModel>::empty()
                && p.spec_batcher().spec_deadline() is None),
    {
        match Batcher::try_new(max_batch_records, max_batch_interval_ms) {
            Ok(b) => Ok(Pipeline { state: PipelineState::Init, batcher: b }),
            Err(e) => Err(e),
        }
    }

    /// The run begins: both offset maps are now to be fetched — the sink's
    /// for the resume cursor, the source's for lag visibility.
    pub fn start(&mut self)
        requires
            old(self).inv(),
            old(self).spec_state() == PipelineState::Init,
        ensures
            final(self).inv(),
            final(self).spec_batcher() == old(self).spec_batcher(),
            final(self).spec_state() == PipelineState::FetchingOffsets,
    {
        self.state = PipelineState::FetchingOffsets;
    }

    /// Startup comparison of the two offset maps. The sink's own map is the
    /// resume cursor — the subscription must start strictly after it, so
    /// that nothing already written is re-delivered — and the source's map
    /// serves only to report how many events the sink is behind.
    pub fn on_offsets(&mut self, sink_offsets: OffsetMap, source_offsets: &OffsetMap) -> (r: (
        OffsetMap,
        u128,
    ))
        requires
            old(self).inv(),
            old(self).spec_state() == PipelineState::FetchingOffsets,
            sink_offsets.wf(),
            source_offsets.wf(),
        ensures
            final(self).inv(),
            final(self).spec_state() == PipelineState::Subscribing,
            final(self).spec_batcher() == old(self).spec_batcher(),
            r.0 == sink_offsets,
            r.1 == spec_size_delta(source_offsets@, sink_offsets@),
    {
        let behind = source_offsets.size_delta(&sink_offsets);
        self.state = PipelineState::Subscribing;
        (sink_offsets, behind)
    }

    /// The live subscription is open; events flow from here on.
    pub fn on_subscribed(&mut self)
        requires
            old(self).inv(),
            old(self).spec_state() == PipelineState::Subscribing,
        ensures
            final(self).inv(),
            final(self).spec_batcher() == old(self).spec_batcher(),
            final(self).spec_state() == PipelineState::Streaming,
    {
        self.state = PipelineState::Streaming;
    }

    /// An unrecoverable error outside the write path — a connect failure,
    /// a dropped subscription — aborts the run.
    pub fn on_fatal(&mut self)
        requires
            old(self).inv(),
        ensures
            final(self).inv(),
            final(self).spec_batcher() == old(self).spec_batcher(),
            final(self).spec_state() == PipelineState::Fatal,
    {
        self.state = PipelineState::Fatal;
    }

    /// One event arrived from the subscription at wall-clock time `now_ms`.
    /// Exactly when it completes a full batch, that batch is returned for
    /// one blocking sink write.
    pub fn on_event(&mut self, e: Event, now_ms: u64) -> (r: Option<Vec<Event>>)
        requires
            old(self).inv(),
            old(self).spec_state() == PipelineState::Streaming,
            old(self).spec_batcher().spec_pending().len() == 0 ==> now_ms + old(
                self,
            ).spec_batcher().spec_max_interval() <= u64::MAX,
        ensures
            final(self).inv(),
            final(self).spec_state() == PipelineState::Streaming,
            final(self).spec_batcher().spec_max_count() == old(
                self,
            ).spec_batcher().spec_max_count(),
            final(self).spec_batcher().spec_max_interval() == old(
                self,
            ).spec_batcher().spec_max_interval(),
            final(self).spec_batcher().spec_pushed() == old(
                self,
            ).spec_batcher().spec_pushed().push(e@),
            r is Some <==> old(self).spec_batcher().spec_pending().len() + 1 == old(
                self,
            ).spec_batcher().spec_max_count(),
            r matches Some(batch) ==> {
                &&& views_of(batch@) == old(self).spec_batcher().spec_pending().push(e@)
                &&& batch@.len() == old(self).spec_batcher().spec_max_count()
                &&& final(self).spec_batcher().spec_pending() == Seq::<EventModel>::empty()
                &&& final(self).spec_batcher().spec_emitted() == old(
                    self,
                ).spec_batcher().spec_emitted() + old(self).spec_batcher().spec_pending().push(e@)
                &&& final(self).spec_batcher().spec_deadline() is None
            },
            r is None ==> {
                &&& final(self).spec_batcher().spec_emitted() == old(
                    self,
                ).spec_batcher().spec_emitted()
                &&& final(self).spec_batcher().spec_pending() == old(
                    self,
                ).spec_batcher().spec_pending().push(e@)
                &&& final(self).spec_batcher().spec_deadline() == (if old(
                    self,
                ).spec_batcher().spec_pending().len() == 0 {
                    Some((now_ms + old(self).spec_batcher().spec_max_interval()) as u64)
                } else {
                    old(self).spec_batcher().spec_deadline()
                })
            },
    {
        self.batcher.push(e, now_ms)
    }

    /// The wall clock reached `now_ms` with no event arriving: flush the
    /// open batch if its interval deadline has passed.
    pub fn on_tick(&mut self, now_ms: u64) -> (r: Option<Vec<Event>>)
        requires
            old(self).inv(),
            old(self).spec_state() == PipelineState::Streaming,
        ensures
            final(self).inv(),
            final(self).spec_state() == PipelineState::Streaming,
            final(self).spec_batcher().spec_max_count() == old(
                self,
            ).spec_batcher().spec_max_count(),
            final(self).spec_batcher().spec_max_interval() == old(
                self,
            ).spec_batcher().spec_max_interval(),
            final(self).spec_batcher().spec_pushed() == old(self).spec_batcher().spec_pushed(),
            r is Some <==> (old(self).spec_batcher().spec_deadline() matches Some(d) && now_ms
                >= d),
            r matches Some(batch) ==> {
                &&& views_of(batch@) == old(self).spec_batcher().spec_pending()
                &&& batch@.len() > 0
                &&& final(self).spec_batcher().spec_pending() == Seq::<EventModel>::empty()
                &&& final(self).spec_batcher().spec_emitted() == old(
                    self,
                ).spec_batcher().spec_emitted() + old(self).spec_batcher().spec_pending()
                &&& final(self).spec_batcher().spec_deadline() is None
            },
            r is None ==> final(self).spec_batcher() == old(self).spec_batcher(),
    {
        self.batcher.poll(now_ms)
    }

    /// The upstream subscription ended cleanly: any partial batch is
    /// returned for one last write, and the run terminates with status 0.
    /// Afterwards everything pushed has been emitted, in order.
    pub fn on_stream_end(&mut self) -> (r: Option<Vec<Event>>)
        requires
            old(self).inv(),
            old(self).spec_state() == PipelineState::Streaming,
        ensures
            final(self).inv(),
            final(self).spec_state() == PipelineState::Terminated,
            final(self).spec_batcher().spec_pushed() == old(self).spec_batcher().spec_pushed(),
            r is Some <==> old(self).spec_batcher().spec_pending().len() > 0,
            r matches Some(batch) ==> views_of(batch@) == old(self).spec_batcher().spec_pending(),
            final(self).spec_batcher().spec_pending() == Seq::<EventModel>::empty(),
            final(self).spec_batcher().spec_emitted() == old(self).spec_batcher().spec_pushed(),
    {
        let r = self.batcher.finish();
        self.state = PipelineState::Terminated;
        r
    }

    /// The sink reported the outcome of the one write in flight. A failed
    /// write is fatal: the run aborts rather than risk losing the batch,
    /// and correctness is recovered on restart by the resume protocol.
    pub fn on_insert_result(&mut self, ok: bool)
        requires
            old(self).inv(),
            old(self).spec_state() == PipelineState::Streaming,
        ensures
            final(self).inv(),
            final(self).spec_batcher() == old(self).spec_batcher(),
            final(self).spec_state() == (if ok {
                PipelineState::Streaming
            } else {
                PipelineState::Fatal
            }),
    {
        if !ok {
            self.state = PipelineState::Fatal;
        }
    }

    /// The current lifecycle state.
    pub fn state(&self) -> (s: PipelineState)
        ensures
            s == self.spec_state(),
    {
        self.state
    }

    /// The armed flush deadline of the open batch, if any, for scheduling
    /// the next tick.
    pub fn deadline(&self) -> (d: Option<u64>)
        ensures
            d == self.spec_batcher().spec_deadline(),
    {
        self.batcher.deadline()
    }

    /// Process status once the run is over: 0 exactly on clean termination.
    pub fn exit_code(&self) -> (c: i32)
        requires
            self.spec_state() == PipelineState::Terminated || self.spec_state()
                == PipelineState::Fatal,
        ensures
            c == 0 <==> self.spec_state() == PipelineState::Terminated,
            self.spec_state() == PipelineState::Fatal ==> c == 1,
    {
        match self.state {
            PipelineState::Terminated => 0,
            _ => 1,
        }
    }
}

} // verus!
