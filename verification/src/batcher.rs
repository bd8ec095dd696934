use vstd::prelude::*;
use crate::event::{Event, EventModel, views_of};

verus! {

/// Invalid construction parameters; both are fatal at startup, before any
/// connection is attempted.
#[derive(Clone, Copy, Debug, PartialEq, Eq, Structural)]
pub enum ConfigError {
    /// The maximum batch size was zero.
    ZeroBatchCount,
    /// The maximum batch interval was zero.
    ZeroBatchInterval,
}

/// Groups an unbounded ordered event stream into bounded batches. A batch is
/// flushed when either `max_count` items have accumulated or `max_interval_ms`
/// has elapsed since the first unflushed item arrived — whichever fires
/// first. The interval timer starts only when the first item of a new batch
/// arrives, so an idle stream never produces an empty flush.
pub struct Batcher {
    max_count: usize,
    max_interval_ms: u64,
    buf: Vec<Event>,
    deadline: Option<u64>,
    pushed: Ghost<Seq<EventModel>>,
    emitted: Ghost<Seq<EventModel>>,
}

impl Batcher {
    /// The count trigger: a batch never exceeds this many events.
    pub closed spec fn spec_max_count(self) -> int {
        self.max_count as int
    }

    /// The time trigger, in milliseconds.
    pub closed spec fn spec_max_interval(self) -> int {
        self.max_interval_ms as int
    }

    /// Events buffered but not yet emitted, in arrival order.
    pub closed spec fn spec_pending(self) -> Seq<EventModel> {
        views_of(self.buf@)
    }

    /// Every event ever handed to the batcher, in arrival order.
    pub closed spec fn spec_pushed(self) -> Seq<EventModel> {
        self.pushed@
    }

    /// The concatenation of all batches emitted so far, in emission order.
    pub closed spec fn spec_emitted(self) -> Seq<EventModel> {
        self.emitted@
    }

    /// When the time trigger fires, if a batch is open.
    pub closed spec fn spec_deadline(self) -> Option<u64> {
        self.deadline
    }

    /// The batcher's invariant: triggers are positive, the buffer is always
    /// strictly below the count trigger, a deadline is armed exactly while a
    /// batch is open, and what was emitted followed by what is pending is
    /// exactly what was pushed.
    pub closed spec fn inv(self) -> bool {
        &&& self.max_count >= 1
        &&& self.max_interval_ms >= 1
        &&& self.buf@.len() < self.max_count
        &&& (self.deadline is Some <==> self.buf@.len() > 0)
        &&& self.emitted@ + views_of(self.buf@) == self.pushed@
    }

    /// A fresh batcher. Both triggers must be positive.
    pub fn new(max_count: usize, max_interval_ms: u64) -> (b: Batcher)
        requires
            max_count >= 1,
            max_interval_ms >= 1,
        ensures
            b.inv(),
            b.spec_max_count() == max_count,
            b.spec_max_interval() == max_interval_ms,
            b.spec_pushed() == Seq::<EventModel>::empty(),
            b.spec_emitted() == Seq::<EventModel>::empty(),
            b.spec_pending() == Seq::<EventModel>::empty(),
            b.spec_deadline() is None,
    {
        let b = Batcher {
            max_count,
            max_interval_ms,
            buf: Vec::new(),
            deadline: None,
            pushed: Ghost(Seq::empty()),
            emitted: Ghost(Seq::empty()),
        };
        proof {
            assert(views_of(b.buf@) =~= Seq::<EventModel>::empty());
            assert(b.emitted@ + views_of(b.buf@) =~= b.pushed@);
        }
        b
    }

    /// Checked construction: a zero count or a zero interval is rejected as
    /// invalid configuration rather than accepted.
    pub fn try_new(max_count: usize, max_interval_ms: u64) -> (r: Result<Batcher, ConfigError>)
        ensures
            max_count == 0 ==> r == Err::<Batcher, ConfigError>(ConfigError::ZeroBatchCount),
            max_count >= 1 && max_interval_ms == 0 ==> r == Err::<Batcher, ConfigError>(
                ConfigError::ZeroBatchInterval,
            ),
            max_count >= 1 && max_interval_ms >= 1 ==> (r matches Ok(b) && b.inv()
                && b.spec_max_count() == max_count && b.spec_max_interval() == max_interval_ms
                && b.spec_pushed() == Seq::<EventModel>::empty()
                && b.spec_emitted() == Seq::<EventModel>::empty()
                && b.spec_pending() == Seq::<EventModel>::empty()
                && b.spec_deadline() is None),
    {
        if max_count == 0 {
            Err(ConfigError::ZeroBatchCount)
        } else if max_interval_ms == 0 {
            Err(ConfigError::ZeroBatchInterval)
        } else {
            Ok(Batcher::new(max_count, max_interval_ms))
        }
    }

    /// Take in one event at wall-clock time `now_ms`. Exactly when the event
    /// completes a full batch, that batch is returned; otherwise the event is
    /// buffered, and the flush deadline is armed if it opened a new batch.
    pub fn push(&mut self, e: Event, now_ms: u64) -> (r: Option<Vec<Event>>)
        requires
            old(self).inv(),
            old(self).spec_pending().len() == 0 ==> now_ms + old(self).spec_max_interval()
                <= u64::MAX,
        ensures
            final(self).inv(),
            final(self).spec_max_count() == old(self).spec_max_count(),
            final(self).spec_max_interval() == old(self).spec_max_interval(),
            final(self).spec_pushed() == old(self).spec_pushed().push(e@),
            r is Some <==> old(self).spec_pending().len() + 1 == old(self).spec_max_count(),
            r matches Some(batch) ==> {
                &&& views_of(batch@) == old(self).spec_pending().push(e@)
                &&& batch@.len() == old(self).spec_max_count()
                &&& final(self).spec_pending() == Seq::<EventModel>::empty()
                &&& final(self).spec_emitted() == old(self).spec_emitted() + old(
                    self,
                ).spec_pending().push(e@)
                &&& final(self).spec_deadline() is None
            },
            r is None ==> {
                &&& final(self).spec_emitted() == old(self).spec_emitted()
                &&& final(self).spec_pending() == old(self).spec_pending().push(e@)
                &&& final(self).spec_deadline() == (if old(self).spec_pending().len() == 0 {
                    Some((now_ms + old(self).spec_max_interval()) as u64)
                } else {
                    old(self).spec_deadline()
                })
            },
    {
        let ghost old_views = views_of(self.buf@);
        let was_empty = self.buf.len() == 0;
        self.buf.push(e);
        self.pushed = Ghost(self.pushed@.push(e@));
        proof {
            assert(views_of(self.buf@) =~= old_views.push(e@));
        }
        if self.buf.len() == self.max_count {
            let mut batch: Vec<Event> = Vec::new();
            core::mem::swap(&mut batch, &mut self.buf);
            self.deadline = None;
            self.emitted = Ghost(self.emitted@ + views_of(batch@));
            proof {
                assert(views_of(self.buf@) =~= Seq::<EventModel>::empty());
                assert(self.emitted@ + views_of(self.buf@) =~= self.pushed@);
            }
            Some(batch)
        } else {
            if was_empty {
                self.deadline = Some(now_ms + self.max_interval_ms);
            }
            proof {
                assert(self.emitted@ + views_of(self.buf@) =~= self.pushed@);
            }
            None
        }
    }

    /// Fire the time trigger if its deadline has passed: at wall-clock time
    /// `now_ms`, an open batch whose deadline is due is flushed whatever its
    /// size; otherwise nothing changes.
    pub fn poll(&mut self, now_ms: u64) -> (r: Option<Vec<Event>>)
        requires
            old(self).inv(),
        ensures
            final(self).inv(),
            final(self).spec_max_count() == old(self).spec_max_count(),
            final(self).spec_max_interval() == old(self).spec_max_interval(),
            final(self).spec_pushed() == old(self).spec_pushed(),
            r is Some <==> (old(self).spec_deadline() matches Some(d) && now_ms >= d),
            r matches Some(batch) ==> {
                &&& views_of(batch@) == old(self).spec_pending()
                &&& batch@.len() > 0
                &&& final(self).spec_pending() == Seq::<EventModel>::empty()
                &&& final(self).spec_emitted() == old(self).spec_emitted() + old(
                    self,
                ).spec_pending()
                &&& final(self).spec_deadline() is None
            },
            r is None ==> *final(self) == *old(self),
    {
        let due = match self.deadline {
            Some(d) => now_ms >= d,
            None => false,
        };
        if due {
            let mut batch: Vec<Event> = Vec::new();
            core::mem::swap(&mut batch, &mut self.buf);
            self.deadline = None;
            self.emitted = Ghost(self.emitted@ + views_of(batch@));
            proof {
                assert(views_of(self.buf@) =~= Seq::<EventModel>::empty());
                assert(self.emitted@ + views_of(self.buf@) =~= self.pushed@);
            }
            Some(batch)
        } else {
            None
        }
    }

    /// Flush on stream end: a partial batch is still emitted before the
    /// batcher shuts down, so nothing pushed is ever lost. Afterwards the
    /// concatenation of all emitted batches is exactly the pushed sequence.
    pub fn finish(&mut self) -> (r: Option<Vec<Event>>)
        requires
            old(self).inv(),
        ensures
            final(self).inv(),
            final(self).spec_max_count() == old(self).spec_max_count(),
            final(self).spec_max_interval() == old(self).spec_max_interval(),
            final(self).spec_pushed() == old(self).spec_pushed(),
            r is Some <==> old(self).spec_pending().len() > 0,
            r matches Some(batch) ==> views_of(batch@) == old(self).spec_pending(),
            final(self).spec_pending() == Seq::<EventModel>::empty(),
            final(self).spec_emitted() == old(self).spec_pushed(),
    {
        proof {
            assert(self.emitted@ + views_of(self.buf@) == self.pushed@);
        }
        if self.buf.len() > 0 {
            let mut batch: Vec<Event> = Vec::new();
            core::mem::swap(&mut batch, &mut self.buf);
            self.deadline = None;
            self.emitted = Ghost(self.emitted@ + views_of(batch@));
            proof {
                assert(views_of(self.buf@) =~= Seq::<EventModel>::empty());
                assert(self.emitted@ + views_of(self.buf@) =~= self.pushed@);
                assert(self.emitted@ =~= self.pushed@);
            }
            Some(batch)
        } else {
            proof {
                assert(views_of(self.buf@) =~= Seq::<EventModel>::empty());
                assert(self.emitted@ =~= self.pushed@);
            }
            None
        }
    }

    /// How many events are buffered in the open batch.
    pub fn pending_len(&self) -> (n: usize)
        ensures
            n == self.spec_pending().len(),
    {
        self.buf.len()
    }

    /// The armed flush deadline, if a batch is open.
    pub fn deadline(&self) -> (d: Option<u64>)
        ensures
            d == self.spec_deadline(),
    {
        self.deadline
    }
}

/// Order preservation: what has been emitted, followed by what is still
/// pending, is exactly the sequence pushed so far, in order; in particular a
/// drained batcher has emitted exactly its input sequence.
pub proof fn lemma_order_preservation(b: &Batcher)
    requires
        b.inv(),
    ensures
        b.spec_emitted() + b.spec_pending() == b.spec_pushed(),
        b.spec_pending().len() == 0 ==> b.spec_emitted() == b.spec_pushed(),
{
    if b.spec_pending().len() == 0 {
        assert(b.spec_emitted() + b.spec_pending() =~= b.spec_emitted());
    }
}

} // verus!
