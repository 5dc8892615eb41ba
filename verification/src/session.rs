//! A session: the discovery-backed store and the timer-backed store of one window,
//! each with the one task that writes it.

use crate::action::Action;
use crate::ingest::{
    delivered, deliveries, law_delivered_in_order, law_ingest_run, BridgeEvent, IngestState,
    IngestTask,
};
use crate::store::{law_revision_counts_appends, StoreState};
use crate::timer::{synthetic_records, TimerState, TimerTask};
use crate::worker::{
    accepted_prefix, law_worker_stops_at_first_refusal, messages, Handover, WorkerState,
};
use vstd::prelude::*;

verus! {

/// What can happen to a session: the bridge yields something, or the timer fires.
pub enum SessionEvent {
    /// The bridge yielded a message, or the end of the stream.
    Bridge(Option<Seq<char>>),
    /// The timer's interval has passed.
    Wake,
}

/// The bridge events among `events`, in their order.
pub open spec fn bridge_events(events: Seq<SessionEvent>) -> Seq<Option<Seq<char>>>
    decreases events.len(),
{
    if events.len() == 0 {
        Seq::empty()
    } else {
        match events.last() {
            SessionEvent::Bridge(event) => bridge_events(events.drop_last()).push(event),
            SessionEvent::Wake => bridge_events(events.drop_last()),
        }
    }
}

/// The number of wakes among `events`.
pub open spec fn wakes(events: Seq<SessionEvent>) -> nat
    decreases events.len(),
{
    if events.len() == 0 {
        0
    } else {
        match events.last() {
            SessionEvent::Bridge(_) => wakes(events.drop_last()),
            SessionEvent::Wake => wakes(events.drop_last()) + 1,
        }
    }
}

/// The mathematical value of a session: its two tasks, each with its store.
pub struct SessionState {
    pub ingest: IngestState,
    pub timer: TimerState,
}

impl SessionState {
    /// A session whose tasks have just begun, with both stores empty.
    pub open spec fn start(interval: nat) -> SessionState {
        SessionState { ingest: IngestState::start(), timer: TimerState::start(interval) }
    }

    /// The session after one event: a bridge event goes to the ingest task and a wake
    /// to the timer task, and the other task is left as it is.
    pub open spec fn step(self, event: SessionEvent) -> SessionState {
        match event {
            SessionEvent::Bridge(event) => SessionState { ingest: self.ingest.step(event), ..self },
            SessionEvent::Wake => SessionState { timer: self.timer.wake(), ..self },
        }
    }

    /// The session after a run of events, first to last.
    pub open spec fn run(self, events: Seq<SessionEvent>) -> SessionState
        decreases events.len(),
    {
        if events.len() == 0 {
            self
        } else {
            self.run(events.drop_last()).step(events.last())
        }
    }
}

/// The two tasks of one window and their stores. A session owns both tasks, so
/// each store has the one writer that its task is.
pub struct Session {
    ingest: IngestTask,
    timer: TimerTask,
}

impl View for Session {
    type V = SessionState;

    closed spec fn view(&self) -> SessionState {
        SessionState { ingest: self.ingest@, timer: self.timer@ }
    }
}

impl Session {
    /// A session whose timer fires every `interval_ms` milliseconds, with both stores
    /// empty, or nothing where the interval is zero.
    pub fn new(interval_ms: u64) -> (session: Option<Session>)
        ensures
            match session {
                Some(session) => interval_ms > 0 && session@ == SessionState::start(
                    interval_ms as nat,
                ),
                None => interval_ms == 0,
            },
    {
        match TimerTask::new(interval_ms) {
            Some(timer) => Some(Session { ingest: IngestTask::new(), timer }),
            None => None,
        }
    }

    /// Hands what the bridge yielded to the ingest task. The timer task is left as it
    /// is.
    pub fn on_bridge_event(&mut self, event: BridgeEvent) -> (action: Action)
        ensures
            final(self)@ == old(self)@.step(SessionEvent::Bridge(event@)),
            action == old(self)@.ingest.action(event@),
    {
        self.ingest.on_event(event)
    }

    /// Hands one wake to the timer task. The ingest task is left as it is.
    pub fn on_wake(&mut self) -> (action: Action)
        ensures
            final(self)@ == old(self)@.step(SessionEvent::Wake),
            action == Action::Refresh,
    {
        self.timer.on_wake()
    }

    /// The ingest task, for reading.
    pub fn ingest(&self) -> (ingest: &IngestTask)
        ensures
            ingest@ == self@.ingest,
    {
        &self.ingest
    }

    /// The timer task, for reading.
    pub fn timer(&self) -> (timer: &TimerTask)
        ensures
            timer@ == self@.timer,
    {
        &self.timer
    }
}

/// However bridge events and wakes are interleaved, each task ends where it would
/// have ended had it run alone on its own events: the ingest task on the bridge
/// events, the timer task on as many wakes as there were.
pub proof fn law_tasks_are_independent(session: SessionState, events: Seq<SessionEvent>)
    ensures
        session.run(events).ingest == session.ingest.run(bridge_events(events)),
        session.run(events).timer == (TimerState {
            store: session.timer.store.append_all(synthetic_records(wakes(events))),
            ..session.timer
        }),
    decreases events.len(),
{
    if events.len() == 0 {
        assert(synthetic_records(0) =~= Seq::empty());
    } else {
        let earlier = events.drop_last();
        law_tasks_are_independent(session, earlier);
        match events.last() {
            SessionEvent::Bridge(event) => {
                assert(bridge_events(events).drop_last() =~= bridge_events(earlier));
            },
            SessionEvent::Wake => {
                assert(synthetic_records(wakes(events)).drop_last() =~= synthetic_records(
                    wakes(earlier),
                ));
            },
        }
    }
}

/// The two stores of a session never mix: however bridge events and wakes are
/// interleaved, the discovery-backed store holds the delivered messages and
/// nothing else, in the order of their delivery, and the timer-backed store holds
/// one synthetic record for each wake and nothing else. Each revision is the
/// number of appends that the store's own task has made.
pub proof fn law_stores_never_interleave(interval: nat, events: Seq<SessionEvent>)
    ensures
        SessionState::start(interval).run(events).ingest.store == (StoreState {
            records: delivered(bridge_events(events)),
            revision: delivered(bridge_events(events)).len(),
        }),
        SessionState::start(interval).run(events).timer.store == (StoreState {
            records: synthetic_records(wakes(events)),
            revision: wakes(events),
        }),
{
    let session = SessionState::start(interval);
    law_tasks_are_independent(session, events);
    law_ingest_run(session.ingest, bridge_events(events));
    law_revision_counts_appends(delivered(bridge_events(events)));
    law_revision_counts_appends(synthetic_records(wakes(events)));
}

/// From the source to the store: where the bridge yields to the ingest task what a
/// new worker has delivered, in the order of sending, the discovery-backed store
/// holds exactly the results that the worker forwarded before the bridge refused
/// one, in the order in which the source gave them, and its revision is their
/// number.
pub proof fn law_results_reach_the_store(
    name: Seq<char>,
    protocol: Seq<char>,
    handovers: Seq<Handover>,
)
    ensures
        ({
            let worker = WorkerState::start(name, protocol).run(handovers);
            let forwarded = messages(handovers).take(accepted_prefix(handovers) as int);
            &&& worker.delivered == forwarded
            &&& IngestState::start().run(deliveries(worker.delivered)).store == (StoreState {
                records: forwarded,
                revision: forwarded.len(),
            })
        }),
{
    let worker = WorkerState::start(name, protocol);
    law_worker_stops_at_first_refusal(worker, handovers);
    let forwarded = messages(handovers).take(accepted_prefix(handovers) as int);
    assert(worker.delivered + forwarded =~= forwarded);
    law_delivered_in_order(forwarded);
}

} // verus!
