use br0wse::action::Action;
use br0wse::ingest::{BridgeEvent, IngestTask};
use br0wse::session::Session;
use br0wse::worker::{DiscoveryWorker, ForwardOutcome, PollOutcome, SourceStatus};
use smol::channel::Receiver;

fn next_event(receiver: &Receiver<String>) -> BridgeEvent {
    BridgeEvent::from_received(smol::block_on(receiver.recv()))
}

fn worker_and_receiver() -> (DiscoveryWorker, Receiver<String>) {
    match DiscoveryWorker::new("ssh", "tcp", SourceStatus::Available) {
        Ok(made) => made,
        Err(error) => panic!("a well-formed service type was refused: {:?}", error),
    }
}

#[test]
fn two_messages_through_the_bridge_reach_the_store() {
    let (mut worker, receiver) = worker_and_receiver();
    assert_eq!(worker.forward("svc-a"), ForwardOutcome::Delivered);
    assert_eq!(worker.forward("svc-b"), ForwardOutcome::Delivered);
    let mut task = IngestTask::new();
    assert_eq!(task.on_event(next_event(&receiver)), Action::Refresh);
    assert_eq!(task.on_event(next_event(&receiver)), Action::Refresh);
    let snapshot = task.snapshot();
    assert_eq!(snapshot.records, vec!["svc-a".to_string(), "svc-b".to_string()]);
    assert_eq!(snapshot.revision, 2);
}

#[test]
fn all_results_of_all_polls_reach_the_store_in_order() {
    let (mut worker, receiver) = worker_and_receiver();
    let mut sent: Vec<String> = Vec::new();
    for poll in 0..20 {
        let mut batch: Vec<String> = Vec::new();
        for result in 0..(poll % 4) {
            batch.push(format!("poll {} result {}", poll, result));
        }
        sent.extend(batch.iter().cloned());
        let report = worker.on_poll(PollOutcome::Results(batch));
        assert!(report.running);
        assert_eq!(report.attempted, report.delivered);
    }
    drop(worker);
    let mut task = IngestTask::new();
    let mut refreshes: usize = 0;
    loop {
        match task.on_event(next_event(&receiver)) {
            Action::Refresh => refreshes += 1,
            Action::Stop => break,
        }
    }
    assert!(task.is_finished());
    assert_eq!(refreshes, sent.len());
    let snapshot = task.snapshot();
    assert_eq!(snapshot.revision, 30);
    assert_eq!(snapshot.records, sent);
}

#[test]
fn dropping_the_worker_ends_the_stream_after_the_pending_messages() {
    let (mut worker, receiver) = worker_and_receiver();
    assert_eq!(worker.forward("last words"), ForwardOutcome::Delivered);
    drop(worker);
    let mut task = IngestTask::new();
    assert_eq!(task.on_event(next_event(&receiver)), Action::Refresh);
    assert_eq!(task.on_event(next_event(&receiver)), Action::Stop);
    assert_eq!(task.snapshot().records, vec!["last words".to_string()]);
}

#[test]
fn session_with_a_zero_interval_is_refused() {
    assert!(Session::new(0).is_none());
}

#[test]
fn stores_of_a_session_never_mix() {
    let mut session = match Session::new(2000) {
        Some(session) => session,
        None => panic!("a positive interval was refused"),
    };
    assert_eq!(session.timer().interval_ms(), 2000);
    assert_eq!(session.on_wake(), Action::Refresh);
    assert_eq!(
        session.on_bridge_event(BridgeEvent::Message("svc-a".to_string())),
        Action::Refresh
    );
    assert_eq!(session.on_wake(), Action::Refresh);
    assert_eq!(
        session.on_bridge_event(BridgeEvent::Message("one more".to_string())),
        Action::Refresh
    );
    assert_eq!(session.on_wake(), Action::Refresh);
    assert_eq!(
        session.on_bridge_event(BridgeEvent::Message("svc-b".to_string())),
        Action::Refresh
    );
    assert_eq!(session.on_bridge_event(BridgeEvent::EndOfStream), Action::Stop);
    assert_eq!(session.on_wake(), Action::Refresh);
    assert_eq!(session.on_bridge_event(BridgeEvent::Message("late".to_string())), Action::Stop);

    let discovered = session.ingest().snapshot();
    assert_eq!(
        discovered.records,
        vec!["svc-a".to_string(), "one more".to_string(), "svc-b".to_string()]
    );
    assert_eq!(discovered.revision, 3);
    assert!(session.ingest().is_finished());

    let ticked = session.timer().snapshot();
    assert_eq!(ticked.records, vec!["one more".to_string(); 4]);
    assert_eq!(ticked.revision, 4);
}

#[test]
fn timer_runs_on_when_the_bridge_has_closed() {
    let mut session = match Session::new(1) {
        Some(session) => session,
        None => panic!("a positive interval was refused"),
    };
    assert_eq!(session.on_bridge_event(BridgeEvent::EndOfStream), Action::Stop);
    for _ in 0..5 {
        assert_eq!(session.on_wake(), Action::Refresh);
    }
    assert_eq!(session.timer().store().revision(), 5);
    assert_eq!(session.ingest().store().revision(), 0);
}
