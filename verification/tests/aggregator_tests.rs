use serial_agent::dispatch::{dispatch_frame, DispatchOutcome};
use serial_agent::poll::Aggregator;
use serial_agent::process::ProcExit;

#[test]
fn aggregator_starts_empty() {
    let agg = Aggregator::new();
    assert_eq!(agg.drain(), "");
}

#[test]
fn aggregator_queues_and_drains_destructively() {
    let agg = Aggregator::new();
    agg.push_output(Some("hi".to_string()), None, 7);
    agg.push_exit(7, &ProcExit::Exited(0));
    assert_eq!(agg.drain(), "stdout 7 aGk=\npidexit 7 0\n");
    assert_eq!(agg.drain(), "");
}

#[test]
fn aggregator_ignores_empty_captures() {
    let agg = Aggregator::new();
    agg.push_output(None, None, 7);
    agg.push_output(Some(String::new()), Some(String::new()), 7);
    assert_eq!(agg.drain(), "");
}

#[test]
fn dispatch_frame_polls_the_shared_store() {
    let agg = Aggregator::new();
    agg.push_output(None, Some("x".to_string()), 2);
    match dispatch_frame(&agg, b"poll") {
        DispatchOutcome::Reply(s) => assert_eq!(s, "stderr 2 eA==\n"),
        _ => panic!("expected a reply"),
    }
}

#[test]
fn dispatch_frame_rejects_without_touching_the_store() {
    let agg = Aggregator::new();
    agg.push_exit(4, &ProcExit::Undetermined);
    match dispatch_frame(&agg, b"nonsense") {
        DispatchOutcome::Reject(m) => assert_eq!(m, "Unknown cmd: nonsense"),
        _ => panic!("expected a rejection"),
    }
    assert_eq!(agg.drain(), "pidexit 4 256\n");
}
