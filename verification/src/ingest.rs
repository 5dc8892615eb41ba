//! The ingest task: it takes what arrives on the event bridge and appends it to the
//! store that it alone writes.

use crate::action::Action;
use crate::store::{law_revision_counts_appends, Services, Snapshot, StoreState};
use smol::channel::RecvError;
use vstd::prelude::*;

verus! {

/// What the receiving end of the bridge yielded.
#[derive(Debug)]
pub enum BridgeEvent {
    /// The next message, in the order of sending.
    Message(String),
    /// The bridge is closed and holds no more messages.
    EndOfStream,
}

impl View for BridgeEvent {
    type V = Option<Seq<char>>;

    open spec fn view(&self) -> Option<Seq<char>> {
        match self {
            BridgeEvent::Message(message) => Some(message@),
            BridgeEvent::EndOfStream => None,
        }
    }
}

impl BridgeEvent {
    /// The event that stands for what a receive on the bridge returned: the message,
    /// or the end of the stream where the bridge is closed and empty.
    pub fn from_received(received: Result<String, RecvError>) -> (event: BridgeEvent)
        ensures
            event == match received {
                Ok(message) => BridgeEvent::Message(message),
                Err(_) => BridgeEvent::EndOfStream,
            },
    {
        match received {
            Ok(message) => BridgeEvent::Message(message),
            Err(_) => BridgeEvent::EndOfStream,
        }
    }
}

/// The mathematical value of an ingest task: its store, and whether it has seen the
/// end of the stream. A task that has not is waiting for the next event.
pub struct IngestState {
    pub store: StoreState,
    pub finished: bool,
}

impl IngestState {
    /// A task that waits for its first event, with an empty store.
    pub open spec fn start() -> IngestState {
        IngestState { store: StoreState::empty(), finished: false }
    }

    /// The task after one event: a waiting task appends a message and waits again,
    /// and finishes at the end of the stream; a finished task stays as it is.
    pub open spec fn step(self, event: Option<Seq<char>>) -> IngestState {
        if self.finished {
            self
        } else {
            match event {
                Some(message) => IngestState { store: self.store.append(message), ..self },
                None => IngestState { finished: true, ..self },
            }
        }
    }

    /// What the task asks for after one event: a redraw after an append, and to stop
    /// otherwise.
    pub open spec fn action(self, event: Option<Seq<char>>) -> Action {
        if !self.finished && event is Some {
            Action::Refresh
        } else {
            Action::Stop
        }
    }

    /// The task after a run of events, first to last.
    pub open spec fn run(self, events: Seq<Option<Seq<char>>>) -> IngestState
        decreases events.len(),
    {
        if events.len() == 0 {
            self
        } else {
            self.run(events.drop_last()).step(events.last())
        }
    }
}

/// The task that feeds the discovery-backed store. It owns the store: nothing else
/// can append to it.
pub struct IngestTask {
    store: Services,
    finished: bool,
}

impl View for IngestTask {
    type V = IngestState;

    closed spec fn view(&self) -> IngestState {
        IngestState { store: self.store@, finished: self.finished }
    }
}

impl IngestTask {
    /// A task that waits for its first event, with an empty store.
    pub fn new() -> (task: IngestTask)
        ensures
            task@ == IngestState::start(),
    {
        IngestTask { store: Services::new(), finished: false }
    }

    /// Takes in what the bridge yielded. A message is appended to the store, and the
    /// answer asks for a redraw; the end of the stream finishes the task.
    pub fn on_event(&mut self, event: BridgeEvent) -> (action: Action)
        ensures
            final(self)@ == old(self)@.step(event@),
            action == old(self)@.action(event@),
    {
        if self.finished {
            return Action::Stop;
        }
        match event {
            BridgeEvent::Message(message) => {
                self.store.add(message.as_str());
                Action::Refresh
            },
            BridgeEvent::EndOfStream => {
                self.finished = true;
                Action::Stop
            },
        }
    }

    /// Whether the task has seen the end of the stream.
    pub fn is_finished(&self) -> (finished: bool)
        ensures
            finished == self@.finished,
    {
        self.finished
    }

    /// The store, for reading.
    pub fn store(&self) -> (store: &Services)
        ensures
            store@ == self@.store,
    {
        &self.store
    }

    /// A copy of the store's records and revision as they are now.
    pub fn snapshot(&self) -> (snapshot: Snapshot)
        ensures
            snapshot@ == self@.store,
    {
        self.store.snapshot()
    }
}

/// The messages of a run of events that come before its first end of stream.
pub open spec fn delivered(events: Seq<Option<Seq<char>>>) -> Seq<Seq<char>>
    decreases events.len(),
{
    if events.len() == 0 {
        Seq::empty()
    } else if events.drop_last().contains(None) {
        delivered(events.drop_last())
    } else {
        match events.last() {
            Some(message) => delivered(events.drop_last()).push(message),
            None => delivered(events.drop_last()),
        }
    }
}

/// The events that deliver `messages` one by one, with no end of stream among them.
pub open spec fn deliveries(messages: Seq<Seq<char>>) -> Seq<Option<Seq<char>>> {
    Seq::new(messages.len(), |i: int| Some(messages[i]))
}

/// Whatever the bridge yields, and in whatever order, the task's store holds what
/// it held, and behind it the messages that came before the first end of stream,
/// in the order in which they came; the revision has advanced by their number; and
/// the task has finished exactly if an end of stream came, or it had finished
/// before (then nothing is appended).
pub proof fn law_ingest_run(task: IngestState, events: Seq<Option<Seq<char>>>)
    ensures
        task.finished ==> task.run(events) == task,
        !task.finished ==> task.run(events) == (IngestState {
            store: task.store.append_all(delivered(events)),
            finished: events.contains(None),
        }),
    decreases events.len(),
{
    if events.len() == 0 {
    } else {
        let earlier = events.drop_last();
        law_ingest_run(task, earlier);
        if !task.finished {
            let none = None::<Seq<char>>;
            assert(events.contains(none) <==> earlier.contains(none) || events.last() == none) by {
                if earlier.contains(none) {
                    let i = choose|i: int| 0 <= i < earlier.len() && earlier[i] == none;
                    assert(events[i] == none);
                }
                if events.last() == none {
                    assert(events[events.len() - 1] == none);
                }
                if events.contains(none) {
                    let i = choose|i: int| 0 <= i < events.len() && events[i] == none;
                    if i < earlier.len() {
                        assert(earlier[i] == none);
                    }
                }
            }
            if !earlier.contains(None) {
                match events.last() {
                    Some(message) => {
                        assert(delivered(events).drop_last() =~= delivered(earlier));
                    },
                    None => {},
                }
            }
        }
    }
}

/// Messages that are delivered through the bridge end up in the store, all of them
/// and nothing else, in the order of their delivery, and the revision is their
/// number.
pub proof fn law_delivered_in_order(messages: Seq<Seq<char>>)
    ensures
        IngestState::start().run(deliveries(messages)) == (IngestState {
            store: StoreState { records: messages, revision: messages.len() },
            finished: false,
        }),
{
    let events = deliveries(messages);
    law_ingest_run(IngestState::start(), events);
    lemma_delivered_of_deliveries(messages);
    law_revision_counts_appends(messages);
}

/// Where no end of stream comes, every message is delivered.
proof fn lemma_delivered_of_deliveries(messages: Seq<Seq<char>>)
    ensures
        !deliveries(messages).contains(None),
        delivered(deliveries(messages)) == messages,
    decreases messages.len(),
{
    let events = deliveries(messages);
    if messages.len() == 0 {
        assert(delivered(events) =~= messages);
    } else {
        lemma_delivered_of_deliveries(messages.drop_last());
        assert(events.drop_last() =~= deliveries(messages.drop_last()));
        assert(delivered(events) =~= messages);
    }
}

} // verus!
