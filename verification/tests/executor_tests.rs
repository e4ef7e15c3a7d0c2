use grapl_core::ExecutorStep;
use grapl_core::PluginExecutor;
use grapl_core::ProcessOutcome;
use grapl_core::PullEvent;
use grapl_core::WorkItem;
use grapl_core::WorkQueue;
use grapl_core::should_acknowledge;

fn item(target: u128) -> WorkItem {
    WorkItem {
        payload: vec![9, 9, 9],
        tenant_id: 1,
        trace_id: 2,
        event_source_id: 3,
        target_id: target,
    }
}

#[test]
fn no_work_sleeps_and_does_not_terminate() {
    let executor = PluginExecutor::new(42, 1_000);
    match executor.next_step(PullEvent::NoWork) {
        ExecutorStep::Sleep(delay) => assert_eq!(delay, 1_000),
        _ => panic!("an empty queue must back the loop off, not terminate it"),
    }
    // and after the sleep the loop pulls again; a second empty pull sleeps again
    match executor.next_step(PullEvent::NoWork) {
        ExecutorStep::Sleep(_) => {},
        _ => panic!("the loop keeps retrying on an empty queue"),
    }
}

#[test]
fn pull_failure_terminates() {
    let executor = PluginExecutor::new(42, 1_000);
    assert!(matches!(executor.next_step(PullEvent::PullFailed), ExecutorStep::Terminate));
}

#[test]
fn leased_job_is_processed_under_its_lease() {
    let executor = PluginExecutor::new(42, 1_000);
    match executor.next_step(PullEvent::Job(7, item(5))) {
        ExecutorStep::Process(lease, work) => {
            assert_eq!(lease, 7);
            assert_eq!(work.target_id, 5);
        },
        _ => panic!("a pulled job must be processed"),
    }
}

#[test]
fn ack_classification() {
    assert!(should_acknowledge(&ProcessOutcome::Success));
    assert!(should_acknowledge(&ProcessOutcome::PermanentFailure(String::from("bad input"))));
    assert!(!should_acknowledge(&ProcessOutcome::RetriableFailure(String::from("timeout"))));
}

#[test]
fn retriable_failure_leaves_item_for_redelivery() {
    let mut queue = WorkQueue::new();
    queue.enqueue(item(5));

    let (lease, pulled) = queue.pull().expect("one item is queued");
    assert_eq!(pulled.target_id, 5);

    // processing fails with a retriable classification: do not acknowledge
    let outcome = ProcessOutcome::RetriableFailure(String::from("downstream busy"));
    assert!(!should_acknowledge(&outcome));

    // while the lease is live the item is invisible
    assert!(queue.pull().is_none());

    // the visibility timeout lapses: the very next pull returns the same item
    queue.lapse_leases();
    let (lease_again, same) = queue.pull().expect("the unacknowledged item is redelivered");
    assert_eq!(lease_again, lease);
    assert_eq!(same.target_id, pulled.target_id);
    assert_eq!(same.payload, pulled.payload);
}

#[test]
fn acknowledged_item_is_gone_for_good() {
    let mut queue = WorkQueue::new();
    queue.enqueue(item(5));
    let (lease, _) = queue.pull().expect("one item is queued");

    assert!(should_acknowledge(&ProcessOutcome::Success));
    queue.acknowledge(lease);

    queue.lapse_leases();
    assert!(queue.pull().is_none());
}

#[test]
fn queue_delivers_in_arrival_order() {
    let mut queue = WorkQueue::new();
    queue.enqueue(item(1));
    queue.enqueue(item(2));
    let (_, first) = queue.pull().unwrap();
    let (_, second) = queue.pull().unwrap();
    assert_eq!(first.target_id, 1);
    assert_eq!(second.target_id, 2);
}
