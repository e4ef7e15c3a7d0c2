use grapl_core::DispatchAction;
use grapl_core::DispatchLoopState;
use grapl_core::Envelope;
use grapl_core::IntakeDecision;
use grapl_core::PopulationResult;
use grapl_core::SourceEvent;
use grapl_core::TargetCache;
use grapl_core::build_work_items;
use grapl_core::classify_pull;
use grapl_core::dispatch_message;
use grapl_core::first_enqueue_failure;

const TTL_MS: u64 = 1_000;

fn envelope() -> Envelope {
    Envelope::new(0xaaaa, 0xbbbb, 0xcccc, vec![1, 2, 3, 4])
}

#[test]
fn fan_out_builds_one_item_per_target() {
    let env = envelope();
    let targets: Vec<u128> = vec![10, 20, 30];
    let items = build_work_items(&env, &targets);

    assert_eq!(items.len(), targets.len());
    for (item, target) in items.iter().zip(targets.iter()) {
        assert_eq!(item.payload, env.payload);
        assert_eq!(item.tenant_id, env.tenant_id);
        assert_eq!(item.trace_id, env.trace_id);
        assert_eq!(item.event_source_id, env.event_source_id);
        assert_eq!(item.target_id, *target);
    }
    // distinct targets give pairwise-distinct target ids
    for i in 0..items.len() {
        for j in (i + 1)..items.len() {
            assert_ne!(items[i].target_id, items[j].target_id);
        }
    }
}

#[test]
fn resolved_tenant_fans_out() {
    let mut cache = TargetCache::new(8, TTL_MS, 4, 8);
    let env = envelope();
    let _ = cache.get(env.tenant_id, 0);
    cache.populate(env.tenant_id, PopulationResult::Found(vec![10, 20]), 0);

    match dispatch_message(&mut cache, envelope(), 1) {
        DispatchAction::FanOut(items) => {
            assert_eq!(items.len(), 2);
            assert_eq!(items[0].target_id, 10);
            assert_eq!(items[1].target_id, 20);
        },
        _ => panic!("expected a fan-out"),
    }
}

#[test]
fn empty_target_set_is_handled_without_work_or_retry() {
    let mut cache = TargetCache::new(8, TTL_MS, 4, 8);
    let env = envelope();
    let _ = cache.get(env.tenant_id, 0);
    cache.populate(env.tenant_id, PopulationResult::FoundEmpty, 0);

    match dispatch_message(&mut cache, envelope(), 1) {
        DispatchAction::MarkHandled => {},
        _ => panic!("an explicit empty target set must produce no work item and no retry"),
    }
    // and its offset is committed like any handled message
    let mut state = DispatchLoopState::new();
    state.message_handled(true);
    assert_eq!(state.committed, 1);
    assert!(state.live);
}

#[test]
fn cold_miss_forwards_original_message_and_commits() {
    let mut cache = TargetCache::new(8, TTL_MS, 4, 8);
    let env = envelope();

    match dispatch_message(&mut cache, env, 0) {
        DispatchAction::RetryRoute(forwarded) => {
            let original = envelope();
            assert_eq!(forwarded.tenant_id, original.tenant_id);
            assert_eq!(forwarded.trace_id, original.trace_id);
            assert_eq!(forwarded.event_source_id, original.event_source_id);
            assert_eq!(forwarded.payload, original.payload);
        },
        _ => panic!("a cold miss must route the message to the retry channel"),
    }
    // the miss requested exactly one background population
    assert_eq!(cache.refresh_requests().as_slice(), &[envelope().tenant_id]);

    let mut state = DispatchLoopState::new();
    state.message_handled(true);
    assert_eq!(state.committed, 1);
}

#[test]
fn retryable_cache_error_routes_to_retry() {
    let mut cache = TargetCache::new(8, TTL_MS, 4, 8);
    let env = envelope();
    let _ = cache.get(env.tenant_id, 0);
    cache.populate(env.tenant_id, PopulationResult::FailedRetryable(String::from("flaky")), 0);

    match dispatch_message(&mut cache, envelope(), 1) {
        DispatchAction::RetryRoute(_) => {},
        _ => panic!("a retryable cache error is handled like a miss"),
    }
}

#[test]
fn fatal_cache_error_aborts_the_loop() {
    let mut cache = TargetCache::new(8, TTL_MS, 4, 8);
    let env = envelope();
    let _ = cache.get(env.tenant_id, 0);
    cache.populate(env.tenant_id, PopulationResult::FailedFatal(String::from("broken")), 0);

    match dispatch_message(&mut cache, envelope(), 1) {
        DispatchAction::Abort(_) => {},
        _ => panic!("a fatal cache error terminates the loop"),
    }
    let mut state = DispatchLoopState::new();
    state.aborted();
    assert!(!state.live);
    assert_eq!(state.committed, 0);
}

#[test]
fn fan_out_fails_fast_on_first_enqueue_failure() {
    assert_eq!(first_enqueue_failure(&vec![true, true, true]), None);
    assert_eq!(first_enqueue_failure(&vec![true, false, false]), Some(1));
    assert_eq!(first_enqueue_failure(&vec![false, true, true]), Some(0));
    assert_eq!(first_enqueue_failure(&vec![]), None);
}

#[test]
fn transport_error_is_skipped_and_committed() {
    match classify_pull(SourceEvent::TransportError(String::from("bad header"))) {
        IntakeDecision::SkipAndCommit(reason) => assert_eq!(reason, "bad header"),
        _ => panic!("a per-message transport error must not crash the loop"),
    }
    // the message is still marked handled and committed
    let mut state = DispatchLoopState::new();
    state.message_handled(true);
    assert_eq!(state.committed, 1);
    assert!(state.live);

    match classify_pull(SourceEvent::Message(envelope())) {
        IntakeDecision::Dispatch(e) => assert_eq!(e.payload, envelope().payload),
        _ => panic!("a sound pull goes on to dispatch"),
    }
}

#[test]
fn commit_failure_is_fatal() {
    let mut state = DispatchLoopState::new();
    state.message_handled(true);
    state.message_handled(false);
    assert!(!state.live);
    assert_eq!(state.committed, 1);
}
