use br0wse::worker::{
    is_valid_part, DiscoveryWorker, ForwardOutcome, PollOutcome, PollReport, SourceStatus,
    WorkerError, POLL_TIMEOUT_MS,
};
use smol::channel::{Receiver, TryRecvError};

fn ssh_worker() -> (DiscoveryWorker, Receiver<String>) {
    match DiscoveryWorker::new("ssh", "tcp", SourceStatus::Available) {
        Ok(made) => made,
        Err(error) => panic!("a well-formed service type was refused: {:?}", error),
    }
}

fn error_of(made: Result<(DiscoveryWorker, Receiver<String>), WorkerError>) -> Option<WorkerError> {
    made.err()
}

#[test]
fn poll_timeout_is_half_a_second() {
    assert_eq!(POLL_TIMEOUT_MS, 500);
}

#[test]
fn parts_of_a_service_type_are_validated() {
    assert!(is_valid_part("ssh"));
    assert!(is_valid_part("tcp"));
    assert!(is_valid_part("_ssh"));
    assert!(is_valid_part("dns-sd"));
    assert!(is_valid_part("é"));
    assert!(!is_valid_part(""));
    assert!(!is_valid_part("."));
    assert!(!is_valid_part(","));
    assert!(!is_valid_part(".http"));
    assert!(!is_valid_part("http."));
    assert!(!is_valid_part(",http"));
    assert!(!is_valid_part("services.dns-sd"));
    assert!(!is_valid_part("a,b"));
    assert!(!is_valid_part("é.é"));
}

#[test]
fn invalid_service_type_fails_construction() {
    assert_eq!(
        error_of(DiscoveryWorker::new("services.dns-sd", "udp", SourceStatus::Available)),
        Some(WorkerError::InvalidServiceType)
    );
    assert_eq!(
        error_of(DiscoveryWorker::new("ssh", "", SourceStatus::Available)),
        Some(WorkerError::InvalidServiceType)
    );
    assert_eq!(
        error_of(DiscoveryWorker::new("", "tcp", SourceStatus::Available)),
        Some(WorkerError::InvalidServiceType)
    );
    assert_eq!(
        error_of(DiscoveryWorker::new("ssh", "tcp,udp", SourceStatus::Available)),
        Some(WorkerError::InvalidServiceType)
    );
}

#[test]
fn invalid_service_type_is_reported_before_an_unavailable_source() {
    assert_eq!(
        error_of(DiscoveryWorker::new("s.sh", "tcp", SourceStatus::Unavailable)),
        Some(WorkerError::InvalidServiceType)
    );
}

#[test]
fn unavailable_source_fails_construction() {
    assert_eq!(
        error_of(DiscoveryWorker::new("ssh", "tcp", SourceStatus::Unavailable)),
        Some(WorkerError::SourceUnavailable)
    );
}

#[test]
fn new_worker_is_running_and_keeps_its_service_type() {
    let (worker, receiver) = ssh_worker();
    assert!(worker.is_running());
    assert_eq!(worker.name(), "ssh");
    assert_eq!(worker.protocol(), "tcp");
    assert_eq!(receiver.try_recv(), Err(TryRecvError::Empty));
}

#[test]
fn forward_hands_the_description_to_the_bridge() {
    let (mut worker, receiver) = ssh_worker();
    assert_eq!(worker.forward("svc-a"), ForwardOutcome::Delivered);
    assert!(worker.is_running());
    assert_eq!(receiver.try_recv(), Ok("svc-a".to_string()));
    assert_eq!(receiver.try_recv(), Err(TryRecvError::Empty));
}

#[test]
fn bridge_keeps_the_order_of_sending() {
    let (mut worker, receiver) = ssh_worker();
    for text in ["1", "2", "3", "4", "5"] {
        assert_eq!(worker.forward(text), ForwardOutcome::Delivered);
    }
    for text in ["1", "2", "3", "4", "5"] {
        assert_eq!(smol::block_on(receiver.recv()), Ok(text.to_string()));
    }
}

#[test]
fn announce_names_the_service_type() {
    let (mut worker, receiver) = ssh_worker();
    assert_eq!(worker.announce(), ForwardOutcome::Delivered);
    assert_eq!(receiver.try_recv(), Ok("Started Browsing for _ssh".to_string()));
}

#[test]
fn dropped_receiver_stops_the_worker_at_its_next_send() {
    let (mut worker, receiver) = ssh_worker();
    assert_eq!(worker.forward("before"), ForwardOutcome::Delivered);
    drop(receiver);
    assert!(worker.is_running());
    assert_eq!(worker.forward("after"), ForwardOutcome::BridgeClosed);
    assert!(!worker.is_running());
}

#[test]
fn stopped_worker_sends_nothing_more() {
    let (mut worker, receiver) = ssh_worker();
    drop(receiver);
    assert_eq!(worker.forward("lost"), ForwardOutcome::BridgeClosed);
    assert_eq!(worker.forward("again"), ForwardOutcome::Skipped);
    assert_eq!(worker.announce(), ForwardOutcome::Skipped);
    let report = worker.on_poll(PollOutcome::Results(vec!["a".to_string(), "b".to_string()]));
    assert_eq!(report, PollReport { attempted: 0, delivered: 0, running: false });
    assert_eq!(
        worker.on_poll(PollOutcome::Failed),
        PollReport { attempted: 0, delivered: 0, running: false }
    );
    assert!(!worker.is_running());
}

#[test]
fn settle_decides_from_the_result_of_the_send() {
    let (mut worker, receiver) = ssh_worker();
    assert_eq!(worker.settle("taken", Ok(())), ForwardOutcome::Delivered);
    assert!(worker.is_running());
    assert_eq!(worker.settle("refused", Err("refused".to_string())), ForwardOutcome::BridgeClosed);
    assert!(!worker.is_running());
    assert_eq!(worker.settle("late", Ok(())), ForwardOutcome::Skipped);
    assert_eq!(worker.settle("late", Err("late".to_string())), ForwardOutcome::Skipped);
    assert!(!worker.is_running());
    assert_eq!(receiver.try_recv(), Err(TryRecvError::Empty));
}

#[test]
fn poll_results_are_forwarded_in_their_order() {
    let (mut worker, receiver) = ssh_worker();
    let batch = vec!["x".to_string(), "y".to_string(), "z".to_string()];
    let report = worker.on_poll(PollOutcome::Results(batch));
    assert_eq!(report, PollReport { attempted: 3, delivered: 3, running: true });
    assert_eq!(receiver.try_recv(), Ok("x".to_string()));
    assert_eq!(receiver.try_recv(), Ok("y".to_string()));
    assert_eq!(receiver.try_recv(), Ok("z".to_string()));
    assert_eq!(receiver.try_recv(), Err(TryRecvError::Empty));
}

#[test]
fn poll_without_results_sends_nothing() {
    let (mut worker, receiver) = ssh_worker();
    let report = worker.on_poll(PollOutcome::Results(Vec::new()));
    assert_eq!(report, PollReport { attempted: 0, delivered: 0, running: true });
    assert_eq!(receiver.try_recv(), Err(TryRecvError::Empty));
}

#[test]
fn failed_poll_is_tolerated() {
    let (mut worker, receiver) = ssh_worker();
    let report = worker.on_poll(PollOutcome::Failed);
    assert_eq!(report, PollReport { attempted: 0, delivered: 0, running: true });
    assert!(worker.is_running());
    let report = worker.on_poll(PollOutcome::Results(vec!["next".to_string()]));
    assert_eq!(report, PollReport { attempted: 1, delivered: 1, running: true });
    assert_eq!(receiver.try_recv(), Ok("next".to_string()));
}

#[test]
fn poll_stops_at_the_first_refused_send() {
    let (mut worker, receiver) = ssh_worker();
    drop(receiver);
    let batch = vec!["x".to_string(), "y".to_string(), "z".to_string()];
    let report = worker.on_poll(PollOutcome::Results(batch));
    assert_eq!(report, PollReport { attempted: 1, delivered: 0, running: false });
    assert!(!worker.is_running());
}

#[test]
fn closed_receiver_with_pending_messages_still_stops_the_worker() {
    let (mut worker, receiver) = ssh_worker();
    assert_eq!(worker.forward("pending"), ForwardOutcome::Delivered);
    assert!(receiver.close());
    assert_eq!(worker.forward("late"), ForwardOutcome::BridgeClosed);
    assert_eq!(receiver.try_recv(), Ok("pending".to_string()));
    assert_eq!(receiver.try_recv(), Err(TryRecvError::Closed));
}

#[test]
fn each_worker_has_a_bridge_of_its_own() {
    let (mut first, first_receiver) = ssh_worker();
    let (mut second, second_receiver) = ssh_worker();
    assert_eq!(first.forward("to the first"), ForwardOutcome::Delivered);
    assert_eq!(second_receiver.try_recv(), Err(TryRecvError::Empty));
    drop(first_receiver);
    assert_eq!(first.forward("lost"), ForwardOutcome::BridgeClosed);
    assert_eq!(second.forward("to the second"), ForwardOutcome::Delivered);
    assert_eq!(second_receiver.try_recv(), Ok("to the second".to_string()));
}
