//! The discovery worker: it takes what each poll of the discovery source yields and
//! forwards it through the event bridge, until the bridge turns out to be closed.

use crate::bridge::{capacity, send, unbounded};
use crate::store::texts;
use smol::channel::{Receiver, Sender};
use vstd::prelude::*;
use vstd::string::*;

verus! {

/// How long one poll of the discovery source may take, in milliseconds.
pub const POLL_TIMEOUT_MS: u64 = 500;

/// Why a worker could not be constructed.
#[derive(Clone, Copy, Debug, PartialEq, Eq, Structural)]
pub enum WorkerError {
    /// The name or the protocol of the service type is malformed.
    InvalidServiceType,
    /// The discovery source could not be reached.
    SourceUnavailable,
}

/// What the caller found when it opened the discovery source.
#[derive(Clone, Copy, Debug, PartialEq, Eq, Structural)]
pub enum SourceStatus {
    /// The source has begun to browse.
    Available,
    /// The source could not be reached, or refused to browse.
    Unavailable,
}

/// What became of one discovery result handed to the worker.
#[derive(Clone, Copy, Debug, PartialEq, Eq, Structural)]
pub enum ForwardOutcome {
    /// The bridge took the message.
    Delivered,
    /// The bridge was closed: the message was not delivered, and the worker has stopped.
    BridgeClosed,
    /// The worker had stopped before: no send was attempted.
    Skipped,
}

/// What one poll of the discovery source yielded.
#[derive(Debug)]
pub enum PollOutcome {
    /// The descriptions of the services found, in the order the source gave them.
    Results(Vec<String>),
    /// The poll failed. The next one may succeed.
    Failed,
}

/// What the worker did with the outcome of one poll.
#[derive(Clone, Copy, Debug, PartialEq, Eq, Structural)]
pub struct PollReport {
    /// How many sends the worker attempted.
    pub attempted: usize,
    /// How many of them the bridge took.
    pub delivered: usize,
    /// Whether the worker goes on to the next poll.
    pub running: bool,
}

/// One part of a service type (its name or its protocol) is well formed when it is
/// not empty and holds neither a dot nor a comma.
pub open spec fn valid_part(part: Seq<char>) -> bool {
    &&& part.len() > 0
    &&& !part.contains('.')
    &&& !part.contains(',')
}

/// A service type is well formed when both of its parts are.
pub open spec fn valid_service_type(name: Seq<char>, protocol: Seq<char>) -> bool {
    valid_part(name) && valid_part(protocol)
}

/// Tests whether one part of a service type is well formed.
pub fn is_valid_part(part: &str) -> (valid: bool)
    ensures
        valid == valid_part(part@),
{
    if part.is_empty() {
        return false;
    }
    for c in scanned: part.chars()
        invariant
            scanned.seq() == part@,
            forall|i: int| 0 <= i < scanned.index() ==> part@[i] != '.' && part@[i] != ',',
    {
        if c == '.' || c == ',' {
            return false;
        }
    }
    true
}

/// Tests whether a service type is well formed.
pub fn is_valid_service_type(name: &str, protocol: &str) -> (valid: bool)
    ensures
        valid == valid_service_type(name@, protocol@),
{
    is_valid_part(name) && is_valid_part(protocol)
}

/// The message by which a worker for the service type `name` announces itself.
pub open spec fn announcement(name: Seq<char>) -> Seq<char> {
    "Started Browsing for _"@ + name
}

/// The mathematical value of a worker: the service type it browses for, whether it
/// still forwards, and the messages that the bridge has taken from it, oldest first.
pub struct WorkerState {
    pub name: Seq<char>,
    pub protocol: Seq<char>,
    pub running: bool,
    pub delivered: Seq<Seq<char>>,
}

/// One discovery result on its way to the bridge: the message made of it, and
/// whether the bridge would accept a message at that time.
pub struct Handover {
    pub message: Seq<char>,
    pub accepted: bool,
}

impl WorkerState {
    /// A worker that has just been constructed.
    pub open spec fn start(name: Seq<char>, protocol: Seq<char>) -> WorkerState {
        WorkerState { name, protocol, running: true, delivered: Seq::empty() }
    }

    /// The worker after one discovery result. A running worker sends the message:
    /// where the bridge accepts it, it is delivered; where not, the worker stops. A
    /// stopped worker does not send, and stays as it is.
    pub open spec fn settle(self, message: Seq<char>, accepted: bool) -> WorkerState {
        if !self.running {
            self
        } else if accepted {
            WorkerState { delivered: self.delivered.push(message), ..self }
        } else {
            WorkerState { running: false, ..self }
        }
    }

    /// What is reported of one discovery result, given whether the bridge would
    /// accept a message.
    pub open spec fn outcome(self, accepted: bool) -> ForwardOutcome {
        if !self.running {
            ForwardOutcome::Skipped
        } else if accepted {
            ForwardOutcome::Delivered
        } else {
            ForwardOutcome::BridgeClosed
        }
    }

    /// The worker after a run of discovery results, first to last.
    pub open spec fn run(self, handovers: Seq<Handover>) -> WorkerState
        decreases handovers.len(),
    {
        if handovers.len() == 0 {
            self
        } else {
            let last = handovers.last();
            self.run(handovers.drop_last()).settle(last.message, last.accepted)
        }
    }

    /// The number of sends that the worker attempts in such a run: one for each
    /// result that is not skipped.
    pub open spec fn attempts(self, handovers: Seq<Handover>) -> nat
        decreases handovers.len(),
    {
        if handovers.len() == 0 {
            0
        } else {
            let earlier = handovers.drop_last();
            if self.run(earlier).outcome(handovers.last().accepted) == ForwardOutcome::Skipped {
                self.attempts(earlier)
            } else {
                self.attempts(earlier) + 1
            }
        }
    }
}

/// A worker that forwards discovery results for one service type through the sending
/// end of its own bridge.
pub struct DiscoveryWorker {
    name: String,
    protocol: String,
    bridge: Sender<String>,
    running: bool,
    delivered: Ghost<Seq<Seq<char>>>,
}

impl View for DiscoveryWorker {
    type V = WorkerState;

    closed spec fn view(&self) -> WorkerState {
        WorkerState {
            name: self.name@,
            protocol: self.protocol@,
            running: self.running,
            delivered: self.delivered@,
        }
    }
}

impl DiscoveryWorker {
    #[verifier::type_invariant]
    spec fn bridge_has_no_limit(self) -> bool {
        capacity(self.bridge) is None
    }

    /// Constructs a worker for the service type `name` over `protocol`, together with
    /// the receiving end of its bridge. A malformed service type or an unavailable
    /// source fails the construction before any bridge is made.
    pub fn new(name: &str, protocol: &str, source: SourceStatus) -> (made: Result<
        (DiscoveryWorker, Receiver<String>),
        WorkerError,
    >)
        ensures
            match made {
                Ok((worker, _)) => {
                    &&& valid_service_type(name@, protocol@)
                    &&& source == SourceStatus::Available
                    &&& worker@ == WorkerState::start(name@, protocol@)
                },
                Err(WorkerError::InvalidServiceType) => !valid_service_type(name@, protocol@),
                Err(WorkerError::SourceUnavailable) => {
                    &&& valid_service_type(name@, protocol@)
                    &&& source == SourceStatus::Unavailable
                },
            },
    {
        if !is_valid_service_type(name, protocol) {
            return Err(WorkerError::InvalidServiceType);
        }
        match source {
            SourceStatus::Unavailable => Err(WorkerError::SourceUnavailable),
            SourceStatus::Available => {
                let (sender, receiver) = unbounded();
                let worker = DiscoveryWorker {
                    name: name.to_owned(),
                    protocol: protocol.to_owned(),
                    bridge: sender,
                    running: true,
                    delivered: Ghost(Seq::empty()),
                };
                Ok((worker, receiver))
            },
        }
    }

    /// Whether the worker still forwards what it is handed.
    pub fn is_running(&self) -> (running: bool)
        ensures
            running == self@.running,
    {
        self.running
    }

    /// The name of the service type, such as `ssh`.
    pub fn name(&self) -> (name: &str)
        ensures
            name@ == self@.name,
    {
        self.name.as_str()
    }

    /// The protocol of the service type, such as `tcp`.
    pub fn protocol(&self) -> (protocol: &str)
        ensures
            protocol@ == self@.protocol,
    {
        self.protocol.as_str()
    }

    /// Takes in the result of sending the message made of `description`: a delivery
    /// leaves the worker running, a refusal stops it for good. A worker that had
    /// stopped stays as it is.
    pub fn settle(&mut self, description: &str, sent: Result<(), String>) -> (outcome:
        ForwardOutcome)
        ensures
            final(self)@ == old(self)@.settle(description@, sent is Ok),
            outcome == old(self)@.outcome(sent is Ok),
    {
        proof {
            use_type_invariant(&*self);
        }
        if !self.running {
            ForwardOutcome::Skipped
        } else {
            match sent {
                Ok(()) => {
                    self.delivered = Ghost(self.delivered@.push(description@));
                    ForwardOutcome::Delivered
                },
                Err(_) => {
                    self.running = false;
                    ForwardOutcome::BridgeClosed
                },
            }
        }
    }

    /// Forwards one discovered service. A running worker makes a message of the
    /// description and sends it on the bridge once, and stops if the bridge is
    /// closed; a stopped worker sends nothing. Whether the bridge accepts is not the
    /// worker's to decide: the outcome tells.
    pub fn forward(&mut self, description: &str) -> (outcome: ForwardOutcome)
        ensures
            match outcome {
                ForwardOutcome::Delivered => {
                    &&& old(self)@.running
                    &&& final(self)@ == old(self)@.settle(description@, true)
                },
                ForwardOutcome::BridgeClosed => {
                    &&& old(self)@.running
                    &&& final(self)@ == old(self)@.settle(description@, false)
                },
                ForwardOutcome::Skipped => !old(self)@.running && final(self)@ == old(self)@,
            },
    {
        if !self.running {
            return ForwardOutcome::Skipped;
        }
        proof {
            use_type_invariant(&*self);
        }
        let sent = send(&self.bridge, description.to_owned());
        self.settle(description, sent)
    }

    /// Tells the consumer which service type the worker browses for, with a message
    /// of its own that is forwarded like a discovery result.
    pub fn announce(&mut self) -> (outcome: ForwardOutcome)
        ensures
            match outcome {
                ForwardOutcome::Delivered => {
                    &&& old(self)@.running
                    &&& final(self)@ == old(self)@.settle(announcement(old(self)@.name), true)
                },
                ForwardOutcome::BridgeClosed => {
                    &&& old(self)@.running
                    &&& final(self)@ == old(self)@.settle(announcement(old(self)@.name), false)
                },
                ForwardOutcome::Skipped => !old(self)@.running && final(self)@ == old(self)@,
            },
    {
        let text = "Started Browsing for _".to_owned().concat(self.name.as_str());
        self.forward(text.as_str())
    }

    /// Takes in the outcome of one poll. A failed poll changes nothing. The results
    /// of a successful one are forwarded in their order, each with one send, up to
    /// and including the first that the bridge refuses: that one stops the worker.
    /// A stopped worker sends nothing.
    pub fn on_poll(&mut self, polled: PollOutcome) -> (report: PollReport)
        ensures
            report.running == final(self)@.running,
            !old(self)@.running || polled is Failed ==> {
                &&& final(self)@ == old(self)@
                &&& report.attempted == 0
                &&& report.delivered == 0
            },
            old(self)@.running ==> (polled matches PollOutcome::Results(batch) ==> {
                &&& report.delivered <= batch@.len()
                &&& report.running <==> report.delivered == batch@.len()
                &&& report.attempted == if report.running {
                    report.delivered as int
                } else {
                    report.delivered + 1
                }
                &&& final(self)@ == (WorkerState {
                    running: report.running,
                    delivered: old(self)@.delivered + texts(batch@).take(report.delivered as int),
                    ..old(self)@
                })
            }),
    {
        if !self.running {
            return PollReport { attempted: 0, delivered: 0, running: false };
        }
        match polled {
            PollOutcome::Failed => PollReport { attempted: 0, delivered: 0, running: true },
            PollOutcome::Results(batch) => {
                let mut delivered: usize = 0;
                assert(texts(batch@).take(0) =~= Seq::empty());
                assert(self@.delivered + Seq::<Seq<char>>::empty() =~= self@.delivered);
                while delivered < batch.len()
                    invariant
                        polled == PollOutcome::Results(batch),
                        old(self)@.running,
                        delivered <= batch@.len(),
                        self@ == (WorkerState {
                            delivered: old(self)@.delivered + texts(batch@).take(delivered as int),
                            ..old(self)@
                        }),
                    decreases batch@.len() - delivered,
                {
                    match self.forward(batch[delivered].as_str()) {
                        ForwardOutcome::Delivered => {
                            assert(texts(batch@).take(delivered + 1) =~= texts(batch@).take(
                                delivered as int,
                            ).push(batch@[delivered as int]@));
                            delivered = delivered + 1;
                            assert(self@.delivered =~= old(self)@.delivered + texts(batch@).take(
                                delivered as int,
                            ));
                        },
                        _ => {
                            return PollReport {
                                attempted: delivered + 1,
                                delivered,
                                running: false,
                            };
                        },
                    }
                }
                PollReport { attempted: delivered, delivered, running: true }
            },
        }
    }
}

/// The messages of a run of handovers, in their order.
pub open spec fn messages(handovers: Seq<Handover>) -> Seq<Seq<char>> {
    Seq::new(handovers.len(), |i: int| handovers[i].message)
}

/// The number of handovers at the head of `handovers` that the bridge accepts.
pub open spec fn accepted_prefix(handovers: Seq<Handover>) -> nat
    decreases handovers.len(),
{
    if handovers.len() == 0 {
        0
    } else {
        let earlier = accepted_prefix(handovers.drop_last());
        if earlier == handovers.len() - 1 && handovers.last().accepted {
            handovers.len()
        } else {
            earlier
        }
    }
}

/// The handovers of a poll that yielded `results`, with a bridge that accepts
/// `delivered` messages and refuses from then on.
pub open spec fn poll_handovers(results: Seq<Seq<char>>, delivered: nat) -> Seq<Handover> {
    Seq::new(results.len(), |i: int| Handover { message: results[i], accepted: i < delivered })
}

/// The accepted prefix ends at the first refusal, or at the end where there is none.
proof fn lemma_accepted_prefix(handovers: Seq<Handover>)
    ensures
        accepted_prefix(handovers) <= handovers.len(),
        forall|i: int| 0 <= i < accepted_prefix(handovers) ==> handovers[i].accepted,
        accepted_prefix(handovers) < handovers.len() ==> !handovers[accepted_prefix(
            handovers,
        ) as int].accepted,
    decreases handovers.len(),
{
    if handovers.len() > 0 {
        let earlier = handovers.drop_last();
        lemma_accepted_prefix(earlier);
        assert forall|i: int| 0 <= i < accepted_prefix(handovers) implies handovers[i].accepted by {
            if i < accepted_prefix(earlier) {
                assert(earlier[i].accepted);
            }
        }
        if accepted_prefix(earlier) < earlier.len() {
            assert(!earlier[accepted_prefix(earlier) as int].accepted);
        }
    }
}

/// A running worker forwards until the bridge refuses a message for the first time.
/// The messages before that one are delivered, in their order; it makes one send
/// for each result up to and including that one, and none after it. It is still
/// running after the run exactly if the bridge refused nothing.
pub proof fn law_worker_stops_at_first_refusal(worker: WorkerState, handovers: Seq<Handover>)
    requires
        worker.running,
    ensures
        worker.run(handovers) == (WorkerState {
            running: accepted_prefix(handovers) == handovers.len(),
            delivered: worker.delivered + messages(handovers).take(
                accepted_prefix(handovers) as int,
            ),
            ..worker
        }),
        worker.attempts(handovers) == if accepted_prefix(handovers) == handovers.len() {
            handovers.len()
        } else {
            accepted_prefix(handovers) + 1
        },
    decreases handovers.len(),
{
    if handovers.len() == 0 {
        assert(worker.delivered + messages(handovers).take(0) =~= worker.delivered);
    } else {
        let earlier = handovers.drop_last();
        law_worker_stops_at_first_refusal(worker, earlier);
        lemma_accepted_prefix(earlier);
        let before = accepted_prefix(earlier) as int;
        let after = accepted_prefix(handovers) as int;
        assert(messages(handovers).take(before) =~= messages(earlier).take(before));
        if after == handovers.len() {
            assert(messages(handovers).take(after) =~= messages(earlier).take(before).push(
                handovers.last().message,
            ));
        }
        assert(worker.run(handovers).delivered =~= worker.delivered + messages(handovers).take(
            after,
        ));
    }
}

/// What a running worker reports of a poll is what forwarding its results one by one
/// comes to: with `delivered` of the results taken by the bridge, these are
/// delivered in their order, the worker is still running exactly if all were taken,
/// and it has attempted one send more than were taken unless all were.
pub proof fn law_poll_forwards_each_result(
    worker: WorkerState,
    results: Seq<Seq<char>>,
    delivered: nat,
)
    requires
        worker.running,
        delivered <= results.len(),
    ensures
        worker.run(poll_handovers(results, delivered)) == (WorkerState {
            running: delivered == results.len(),
            delivered: worker.delivered + results.take(delivered as int),
            ..worker
        }),
        worker.attempts(poll_handovers(results, delivered)) == if delivered == results.len() {
            delivered
        } else {
            delivered + 1
        },
{
    let handovers = poll_handovers(results, delivered);
    lemma_accepted_prefix(handovers);
    let prefix = accepted_prefix(handovers);
    if prefix < delivered {
        assert(handovers[prefix as int].accepted);
    }
    if prefix > delivered {
        assert(handovers[delivered as int].accepted);
    }
    law_worker_stops_at_first_refusal(worker, handovers);
    assert(messages(handovers) =~= results);
}

/// Once a send has found the bridge closed, the worker has stopped, and it makes no
/// further send: whatever results it is handed later, and whatever the bridge would
/// answer, it stays as it is and attempts nothing.
pub proof fn law_no_send_after_closed_bridge(
    worker: WorkerState,
    refused: Seq<char>,
    later: Seq<Handover>,
)
    ensures
        !worker.settle(refused, false).running,
        worker.settle(refused, false).delivered == worker.delivered,
        worker.settle(refused, false).run(later) == worker.settle(refused, false),
        worker.settle(refused, false).attempts(later) == 0,
    decreases later.len(),
{
    if later.len() > 0 {
        law_no_send_after_closed_bridge(worker, refused, later.drop_last());
    }
}

} // verus!
