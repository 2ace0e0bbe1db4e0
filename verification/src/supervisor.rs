//! The supervisor: one queue and two independently restarting loops.
//!
//! The source loop hands captured events in; the sink loop takes directives
//! out.  A failure in either loop only flips that loop's state to
//! `Restarting` — it never touches the other loop, the configuration, or the
//! queue.  The decisions live here; the waiting (for the next event, for the
//! network) lives with the caller that drives the two loops.

use vstd::prelude::*;

use crate::config::{ConfigView, NotifierConfig};
use crate::event::{DirectiveView, DisplayDirective, EventView, NotificationEvent};
use crate::queue::RelayQueue;
use crate::timeout::{evaluate, is_skipped, spec_evaluate};

verus! {

/// One relay loop is either serving, or being rebuilt after a failure.
/// Neither loop ever reaches a terminal state.
#[derive(Clone, Copy, Debug, PartialEq, Eq, Structural)]
pub enum LoopState {
    Running,
    Restarting,
}

/// The queue contents after the source loop has processed one event.
pub open spec fn queue_after_event(
    q: Seq<DirectiveView>,
    e: EventView,
    c: ConfigView,
) -> Seq<DirectiveView> {
    match spec_evaluate(e, c) {
        Some(d) => q.push(d),
        None => q,
    }
}

/// The queue contents after the source loop has processed `events` in order.
pub open spec fn queue_after_events(
    q: Seq<DirectiveView>,
    events: Seq<EventView>,
    c: ConfigView,
) -> Seq<DirectiveView>
    decreases events.len(),
{
    if events.len() == 0 {
        q
    } else {
        queue_after_events(queue_after_event(q, events[0], c), events.drop_first(), c)
    }
}

/// The directives that survive filtering, in submission order.
pub open spec fn produced(events: Seq<EventView>, c: ConfigView) -> Seq<DirectiveView>
    decreases events.len(),
{
    if events.len() == 0 {
        Seq::empty()
    } else {
        match spec_evaluate(events[0], c) {
            Some(d) => seq![d] + produced(events.drop_first(), c),
            None => produced(events.drop_first(), c),
        }
    }
}

/// The steady state of the process: the configuration snapshot, the queue,
/// and the state of the two loops.
pub struct Supervisor {
    pub config: NotifierConfig,
    pub queue: RelayQueue,
    pub source: LoopState,
    pub sink: LoopState,
}

impl Supervisor {
    /// A fresh supervisor: empty queue, both loops running.
    pub fn new(config: NotifierConfig) -> (s: Self)
        ensures
            s.config == config,
            s.queue@ == Seq::<DirectiveView>::empty(),
            s.source == LoopState::Running,
            s.sink == LoopState::Running,
    {
        Supervisor { config, queue: RelayQueue::new(), source: LoopState::Running, sink: LoopState::Running }
    }

    /// The source loop captured one event: run it through the calculator and
    /// queue the directive if one is produced.  Returns whether one was.
    /// The sink's state is never consulted: a sink outage does not interrupt
    /// production.
    pub fn handle_source_event(&mut self, event: NotificationEvent) -> (queued: bool)
        ensures
            final(self).config == old(self).config,
            final(self).source == old(self).source,
            final(self).sink == old(self).sink,
            queued == !is_skipped(event@.source_app, old(self).config@.skipped_apps),
            final(self).queue@ == queue_after_event(old(self).queue@, event@, old(self).config@),
    {
        match evaluate(event, &self.config) {
            Some(d) => {
                self.queue.push(d);
                true
            },
            None => false,
        }
    }

    /// The source loop failed: it is restarted from scratch, immediately and
    /// unconditionally.  Nothing else changes.
    pub fn source_failed(&mut self)
        ensures
            final(self).config == old(self).config,
            final(self).queue@ == old(self).queue@,
            final(self).source == LoopState::Restarting,
            final(self).sink == old(self).sink,
    {
        self.source = LoopState::Restarting;
    }

    /// The source loop re-subscribed and serves again.
    pub fn source_restarted(&mut self)
        ensures
            final(self).config == old(self).config,
            final(self).queue@ == old(self).queue@,
            final(self).source == LoopState::Running,
            final(self).sink == old(self).sink,
    {
        self.source = LoopState::Running;
    }

    /// The sink loop failed: it is restarted immediately and unconditionally.
    /// The queue is untouched, so everything queued during the outage is
    /// still there when the sink recovers; only a directive already handed
    /// out by `next_directive` and in flight at the failure can be lost.
    pub fn sink_failed(&mut self)
        ensures
            final(self).config == old(self).config,
            final(self).queue@ == old(self).queue@,
            final(self).source == old(self).source,
            final(self).sink == LoopState::Restarting,
    {
        self.sink = LoopState::Restarting;
    }

    /// The sink loop re-established its connection and consumes again.
    pub fn sink_restarted(&mut self)
        ensures
            final(self).config == old(self).config,
            final(self).queue@ == old(self).queue@,
            final(self).source == old(self).source,
            final(self).sink == LoopState::Running,
    {
        self.sink = LoopState::Running;
    }

    /// Hand the sink loop the oldest queued directive, if any: directives
    /// leave the queue in exactly the order they entered it.
    pub fn next_directive(&mut self) -> (r: Option<DisplayDirective>)
        ensures
            final(self).config == old(self).config,
            final(self).source == old(self).source,
            final(self).sink == old(self).sink,
            match r {
                Some(d) => old(self).queue@.len() > 0 && d@ == old(self).queue@[0]
                    && final(self).queue@ == old(self).queue@.drop_first(),
                None => old(self).queue@.len() == 0 && final(self).queue@ == old(self).queue@,
            },
    {
        self.queue.pop()
    }
}

/// Law: however many times the sink fails during an outage (`sink_failed`
/// leaves the queue unchanged), the source loop's pushes accumulate
/// undisturbed — after feeding `events` in order, the queue holds its old
/// contents followed by exactly the directives that survive filtering, in
/// submission order.  Once the sink recovers, `next_directive` hands them
/// out front first, so they are delivered in that same order.
pub proof fn lemma_outage_delivery(q: Seq<DirectiveView>, events: Seq<EventView>, c: ConfigView)
    ensures
        queue_after_events(q, events, c) == q + produced(events, c),
    decreases events.len(),
{
    if events.len() == 0 {
        assert(q + produced(events, c) =~= q);
    } else {
        let rest = events.drop_first();
        match spec_evaluate(events[0], c) {
            Some(d) => {
                lemma_outage_delivery(q.push(d), rest, c);
                assert(q.push(d) + produced(rest, c) =~= q + (seq![d] + produced(rest, c)));
            },
            None => {
                lemma_outage_delivery(q, rest, c);
            },
        }
    }
}

} // verus!
