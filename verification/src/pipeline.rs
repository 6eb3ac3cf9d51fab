//! The decisions of the batching pipeline, as a state machine.
//!
//! The pipeline receives events, keeps the schema cache current, collects
//! messages into a batch and says when the batch is due at the sink. It
//! does no waiting and no sending itself: the program around it receives
//! the events, keeps the timer, talks to the sink and the feedback channel,
//! and tells the pipeline what happened.
//!
//! A round of the pipeline starts with a look at the pause switch. While
//! the service is paused, the pipeline takes no event: it flushes what is
//! pending, sleeps, and looks again. Else it waits for an event or for a
//! tick of the timer, whichever comes first.
//!
//! The pipeline ends when the event channel is closed, that is when every
//! sender is gone and every event has been received: it flushes what is
//! pending, and its next round does not start.
//!
//! A batch is due when it has reached the batch size, when the timer ticks
//! or the pipeline is paused while messages are pending. The position
//! handed to the sink with a batch is that of the last event received.
//! Once the sink has answered, the batch is dropped, whatever the answer:
//! but only a batch that the sink took has its position forwarded as
//! feedback.

use vstd::prelude::*;
use crate::message::{CdcEvent, CdcMessage};
use crate::schema_cache::{spec_update, EntryView, SchemaCache, SchemaDelta, SchemaDeltaView};

verus! {

/// The state of the pipeline: the schema cache, the messages that wait for
/// the sink, the size at which a batch is due, the position of the last
/// event received, and whether the event channel has been found closed.
pub struct PipelineState {
    schema_cache: SchemaCache,
    batch: Vec<CdcMessage>,
    batch_size: usize,
    last_lsn: u64,
    stopped: bool,
}

/// What a [`PipelineState`] holds, as mathematical data.
pub struct PipelineView {
    pub cache: Map<u32, EntryView>,
    pub batch: Seq<CdcMessage>,
    pub batch_size: usize,
    pub last_lsn: u64,
    pub stopped: bool,
}

/// What an event asks of the program around the pipeline: to apply a
/// change of schema at the sink, and then to flush the batch with the
/// given position.
pub struct EventOutcome {
    pub delta: Option<SchemaDelta>,
    pub flush: Option<u64>,
}

/// What an [`EventOutcome`] holds, as mathematical data.
pub struct EventOutcomeView {
    pub delta: Option<SchemaDeltaView>,
    pub flush: Option<u64>,
}

impl View for EventOutcome {
    type V = EventOutcomeView;

    open spec fn view(&self) -> EventOutcomeView {
        EventOutcomeView {
            delta: match self.delta {
                Some(delta) => Some(delta@),
                None => None,
            },
            flush: self.flush,
        }
    }
}

/// Whether the service is running or paused.
#[derive(Clone, Copy, Debug, PartialEq, Eq, Structural)]
pub enum CdcState {
    Running,
    Paused,
}

/// How long a paused pipeline sleeps before it looks at the pause switch
/// again, in milliseconds.
pub const PAUSE_POLL_MILLIS: u64 = 100;

/// How a round of the pipeline starts.
#[derive(Clone, Copy, Debug, PartialEq, Eq, Structural)]
pub enum RoundStart {
    /// The event channel is closed: the pipeline has ended.
    Stop,
    /// The service runs: wait for an event or a tick of the timer.
    Wait,
    /// The service is paused: flush the batch with the given position, if
    /// there is one, then sleep for so many milliseconds and start over.
    Pause { flush: Option<u64>, sleep_millis: u64 },
}

/// How a round starts in the state `st`, given what the pause switch says;
/// a pipeline without a switch is never paused. Once the event channel has
/// been found closed, no round starts, whatever the switch says.
pub open spec fn spec_begin_round(st: PipelineView, switch: Option<CdcState>) -> RoundStart {
    if st.stopped {
        RoundStart::Stop
    } else if switch == Some(CdcState::Paused) {
        RoundStart::Pause { flush: spec_pending_flush(st), sleep_millis: PAUSE_POLL_MILLIS }
    } else {
        RoundStart::Wait
    }
}

/// The pipeline after an event, and what the event asks for.
///
/// The event's position becomes the last position. The schema cache takes
/// note of the message, and a change of schema is passed on. The message
/// joins the batch, and the batch is due if it has reached the batch size.
pub open spec fn spec_on_event(st: PipelineView, event: CdcEvent) -> (
    PipelineView,
    EventOutcomeView,
) {
    let updated = spec_update(st.cache, event.message);
    let batch = st.batch.push(event.message);
    (
        PipelineView { cache: updated.0, batch, last_lsn: event.lsn, ..st },
        EventOutcomeView {
            delta: updated.1,
            flush: if batch.len() >= st.batch_size {
                Some(event.lsn)
            } else {
                None
            },
        },
    )
}

/// The position with which the pending batch is flushed when the timer
/// ticks or the pipeline is paused; `None` where nothing is pending.
pub open spec fn spec_pending_flush(st: PipelineView) -> Option<u64> {
    if st.batch.len() > 0 {
        Some(st.last_lsn)
    } else {
        None
    }
}

/// The pipeline after the sink has answered a flush, and the position to
/// forward as feedback: the last position if the sink took the batch, none
/// if it failed. The batch is dropped either way.
pub open spec fn spec_flush_done(st: PipelineView, sink_ok: bool) -> (PipelineView, Option<u64>) {
    (
        PipelineView { batch: Seq::empty(), ..st },
        if sink_ok {
            Some(st.last_lsn)
        } else {
            None
        },
    )
}

/// The pipeline after the event channel has been found closed, and the
/// position with which the pending batch is flushed before the pipeline
/// ends; `None` where nothing is pending.
pub open spec fn spec_on_channel_closed(st: PipelineView) -> (PipelineView, Option<u64>) {
    (PipelineView { stopped: true, ..st }, spec_pending_flush(st))
}

impl View for PipelineState {
    type V = PipelineView;

    closed spec fn view(&self) -> PipelineView {
        PipelineView {
            cache: self.schema_cache@,
            batch: self.batch@,
            batch_size: self.batch_size,
            last_lsn: self.last_lsn,
            stopped: self.stopped,
        }
    }
}

impl PipelineState {
    /// A pipeline that has seen no event yet.
    pub fn new(batch_size: usize) -> (r: PipelineState)
        ensures
            r@ == (PipelineView {
                cache: Map::empty(),
                batch: Seq::empty(),
                batch_size,
                last_lsn: 0,
                stopped: false,
            }),
    {
        PipelineState {
            schema_cache: SchemaCache::new(),
            batch: Vec::new(),
            batch_size,
            last_lsn: 0,
            stopped: false,
        }
    }

    /// The messages that wait for the sink, in the order in which they
    /// came.
    pub fn batch(&self) -> (r: &Vec<CdcMessage>)
        ensures
            r@ == self@.batch,
    {
        &self.batch
    }

    /// The schema cache, which the sink reads to decode a batch.
    pub fn schema_cache(&self) -> (r: &SchemaCache)
        ensures
            r@ == self@.cache,
    {
        &self.schema_cache
    }

    /// The position of the last event received; zero before the first.
    pub fn last_lsn(&self) -> (r: u64)
        ensures
            r == self@.last_lsn,
    {
        self.last_lsn
    }

    /// Takes an event in.
    pub fn on_event(&mut self, event: CdcEvent) -> (r: EventOutcome)
        ensures
            final(self)@ == spec_on_event(old(self)@, event).0,
            r@ == spec_on_event(old(self)@, event).1,
    {
        self.last_lsn = event.lsn;
        let delta = self.schema_cache.update(&event.message);
        self.batch.push(event.message);
        let flush = if self.batch.len() >= self.batch_size {
            Some(self.last_lsn)
        } else {
            None
        };
        EventOutcome { delta, flush }
    }

    /// Whether the event channel has been found closed.
    pub fn is_stopped(&self) -> (r: bool)
        ensures
            r == self@.stopped,
    {
        self.stopped
    }

    /// Starts a round: says whether the pipeline has ended, whether to wait
    /// for an event or, the service being paused, to flush and sleep.
    pub fn begin_round(&self, switch: Option<CdcState>) -> (r: RoundStart)
        ensures
            r == spec_begin_round(self@, switch),
    {
        if self.stopped {
            return RoundStart::Stop;
        }
        match switch {
            Some(CdcState::Paused) => RoundStart::Pause {
                flush: self.pending_flush(),
                sleep_millis: PAUSE_POLL_MILLIS,
            },
            _ => RoundStart::Wait,
        }
    }

    /// Says whether a batch is due because the timer has ticked, and with
    /// which position.
    pub fn pending_flush(&self) -> (r: Option<u64>)
        ensures
            r == spec_pending_flush(self@),
    {
        if self.batch.len() > 0 {
            Some(self.last_lsn)
        } else {
            None
        }
    }

    /// Takes note that the event channel is closed: every sender is gone
    /// and every event has been received. The pipeline ends: it says with
    /// which position to flush the pending batch, if there is one, and no
    /// round starts after this.
    pub fn on_channel_closed(&mut self) -> (r: Option<u64>)
        ensures
            final(self)@ == spec_on_channel_closed(old(self)@).0,
            r == spec_on_channel_closed(old(self)@).1,
            spec_begin_round(final(self)@, None) == RoundStart::Stop,
    {
        self.stopped = true;
        self.pending_flush()
    }

    /// Takes note of the sink's answer to a flush, and says which position
    /// to forward as feedback.
    pub fn flush_done(&mut self, sink_ok: bool) -> (r: Option<u64>)
        ensures
            final(self)@ == spec_flush_done(old(self)@, sink_ok).0,
            r == spec_flush_done(old(self)@, sink_ok).1,
            !sink_ok ==> r is None,
    {
        let lsn = self.last_lsn;
        self.batch.clear();
        if sink_ok {
            Some(lsn)
        } else {
            None
        }
    }
}

/// The pipeline after the events `events`, and the positions forwarded as
/// feedback on the way, where the sink answers every flush with `sink_ok`.
pub open spec fn spec_run(st: PipelineView, events: Seq<CdcEvent>, sink_ok: bool) -> (
    PipelineView,
    Seq<u64>,
)
    decreases events.len(),
{
    if events.len() == 0 {
        (st, Seq::empty())
    } else {
        let before = spec_run(st, events.drop_last(), sink_ok);
        let stepped = spec_on_event(before.0, events.last());
        if stepped.1.flush is Some {
            let flushed = spec_flush_done(stepped.0, sink_ok);
            (
                flushed.0,
                match flushed.1 {
                    Some(lsn) => before.1.push(lsn),
                    None => before.1,
                },
            )
        } else {
            (stepped.0, before.1)
        }
    }
}

/// The positions forwarded as feedback for the events `events` followed by
/// one tick of the timer.
pub open spec fn spec_run_to_tick(st: PipelineView, events: Seq<CdcEvent>, sink_ok: bool) -> Seq<
    u64,
> {
    let ran = spec_run(st, events, sink_ok);
    if spec_pending_flush(ran.0) is Some {
        match spec_flush_done(ran.0, sink_ok).1 {
            Some(lsn) => ran.1.push(lsn),
            None => ran.1,
        }
    } else {
        ran.1
    }
}

/// Once the event channel has been found closed, the pipeline stays
/// ended: no event, no answer of the sink and no state of the pause switch
/// makes a round start again.
pub proof fn lemma_ended_pipeline_stays_ended(
    st: PipelineView,
    event: CdcEvent,
    sink_ok: bool,
    switch: Option<CdcState>,
)
    ensures
        spec_begin_round(spec_on_channel_closed(st).0, switch) == RoundStart::Stop,
        spec_on_event(spec_on_channel_closed(st).0, event).0.stopped,
        spec_flush_done(spec_on_channel_closed(st).0, sink_ok).0.stopped,
        spec_on_channel_closed(spec_on_channel_closed(st).0).0.stopped,
{
}

/// What is pending when the event channel is closed is flushed like a
/// batch that the timer finds: with a sink that takes every batch, the
/// positions forwarded up to the end are those forwarded up to a tick.
pub proof fn lemma_closing_flushes_like_a_tick(st: PipelineView, events: Seq<CdcEvent>)
    ensures
        ({
            let ran = spec_run(st, events, true);
            let closed = spec_on_channel_closed(ran.0);
            spec_run_to_tick(st, events, true) == match closed.1 {
                Some(_) => match spec_flush_done(closed.0, true).1 {
                    Some(lsn) => ran.1.push(lsn),
                    None => ran.1,
                },
                None => ran.1,
            }
        }),
{
}

/// While the sink fails, no position is forwarded, however many events
/// come in and whether or not the timer ticks.
pub proof fn lemma_failing_sink_forwards_nothing(st: PipelineView, events: Seq<CdcEvent>)
    ensures
        spec_run(st, events, false).1.len() == 0,
        spec_run_to_tick(st, events, false).len() == 0,
    decreases events.len(),
{
    if events.len() > 0 {
        lemma_failing_sink_forwards_nothing(st, events.drop_last());
    }
}

/// The index of the event that closes batch `k`, counted from zero, at
/// batch size `n`.
pub open spec fn batch_end(k: int, n: int) -> int {
    (k + 1) * n - 1
}

/// That the `k`-th position forwarded is that of the event which closes
/// batch `k`.
pub open spec fn forwards_batch_end(
    forwarded: Seq<u64>,
    events: Seq<CdcEvent>,
    n: int,
    k: int,
) -> bool {
    &&& 0 <= batch_end(k, n) < events.len()
    &&& forwarded[k] == events[batch_end(k, n)].lsn
}

/// With a sink that takes every batch, the events are forwarded in full
/// batches: after `m` events with batch size `n`, one position has been
/// forwarded for every `n` events, each the position of the last event of
/// its batch, and the events beyond the last full batch are pending.
pub proof fn lemma_full_batches_forwarded(st: PipelineView, events: Seq<CdcEvent>)
    requires
        st.batch.len() == 0,
        st.batch_size >= 1,
    ensures
        ({
            let ran = spec_run(st, events, true);
            let n = st.batch_size as int;
            &&& ran.0.batch_size == st.batch_size
            &&& ran.0.batch.len() < n
            &&& events.len() == ran.1.len() * n + ran.0.batch.len()
            &&& events.len() > 0 ==> ran.0.last_lsn == events.last().lsn
            &&& forall|k: int|
                0 <= k < ran.1.len() ==> #[trigger] forwards_batch_end(ran.1, events, n, k)
        }),
    decreases events.len(),
{
    let n = st.batch_size as int;
    let ran = spec_run(st, events, true);
    if events.len() > 0 {
        let shorter = events.drop_last();
        lemma_full_batches_forwarded(st, shorter);
        let before = spec_run(st, shorter, true);
        let q = before.1.len() as int;
        assert((q + 1) * n == q * n + n) by (nonlinear_arith);
        assert forall|k: int| 0 <= k < ran.1.len() implies #[trigger] forwards_batch_end(
            ran.1,
            events,
            n,
            k,
        ) by {
            if k < q {
                assert(forwards_batch_end(before.1, shorter, n, k));
                assert(ran.1[k] == before.1[k]);
            } else {
                assert(ran.1[q] == events.last().lsn);
            }
        }
    } else {
        assert(ran.1.len() == 0);
        assert(0 * n == 0);
    }
}

/// Where the positions of the events never decrease, neither do the
/// positions forwarded as feedback.
pub proof fn lemma_feedback_in_order(st: PipelineView, events: Seq<CdcEvent>)
    requires
        st.batch.len() == 0,
        st.batch_size >= 1,
        forall|i: int, j: int|
            0 <= i <= j < events.len() ==> (#[trigger] events[i]).lsn <= (#[trigger] events[j]).lsn,
    ensures
        ({
            let forwarded = spec_run(st, events, true).1;
            forall|a: int, b: int|
                0 <= a <= b < forwarded.len() ==> #[trigger] forwarded[a] <= #[trigger] forwarded[b]
        }),
{
    let n = st.batch_size as int;
    let forwarded = spec_run(st, events, true).1;
    lemma_full_batches_forwarded(st, events);
    assert forall|a: int, b: int| 0 <= a <= b < forwarded.len() implies #[trigger] forwarded[a]
        <= #[trigger] forwarded[b] by {
        assert(forwards_batch_end(forwarded, events, n, a));
        assert(forwards_batch_end(forwarded, events, n, b));
        assert((a + 1) * n <= (b + 1) * n) by (nonlinear_arith)
            requires
                a <= b,
                n >= 1,
        ;
    }
}

/// The number of batches that `m` events make at batch size `n`: `m / n`,
/// rounded up.
pub open spec fn batches_for(m: nat, n: nat) -> nat
    recommends
        n >= 1,
{
    ((m + n - 1) / n as int) as nat
}

/// With a sink that takes every batch, `n + 1` events at batch size `n`,
/// followed by a tick of the timer, have exactly two positions forwarded,
/// which is `(n + 1) / n` rounded up: that of the `n`-th event, which
/// closes the first batch, and that of the last event.
pub proof fn lemma_one_more_than_a_batch(st: PipelineView, events: Seq<CdcEvent>)
    requires
        st.batch.len() == 0,
        st.batch_size >= 1,
        events.len() == st.batch_size + 1,
    ensures
        spec_run_to_tick(st, events, true) == seq![
            events[st.batch_size - 1].lsn,
            events[st.batch_size as int].lsn,
        ],
        spec_run_to_tick(st, events, true).len() == batches_for(
            events.len(),
            st.batch_size as nat,
        ),
{
    let n = st.batch_size as int;
    lemma_full_batches_forwarded(st, events);
    let ran = spec_run(st, events, true);
    let q = ran.1.len() as int;
    let p = ran.0.batch.len() as int;
    assert(q * n + p == n + 1);
    assert(q >= 1 && q <= 2) by (nonlinear_arith)
        requires
            q * n + p == n + 1,
            0 <= p < n,
            n >= 1,
            q >= 0,
    ;
    if q == 1 {
        assert(1 * n == n);
        assert(p == 1);
        assert(forwards_batch_end(ran.1, events, n, 0));
    } else {
        assert(2 * n == n + n);
        assert(n == 1 && p == 0);
        assert(forwards_batch_end(ran.1, events, n, 0));
        assert(forwards_batch_end(ran.1, events, n, 1));
    }
    assert(spec_run_to_tick(st, events, true) =~= seq![events[n - 1].lsn, events[n].lsn]);
    assert((2 * n) / n == 2) by (nonlinear_arith)
        requires
            n >= 1,
    ;
}

} // verus!
