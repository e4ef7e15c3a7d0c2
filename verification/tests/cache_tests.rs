use grapl_core::CacheError;
use grapl_core::PopulationResult;
use grapl_core::TargetCache;

const TTL_MS: u64 = 1_000;

fn cache_with(capacity: usize, queue_depth: usize) -> TargetCache {
    TargetCache::new(capacity, TTL_MS, 4, queue_depth)
}

#[test]
fn cold_cache_get_then_background_population() {
    // A cold get is a miss, the background population resolves the tenant,
    // and a get within the TTL serves exactly the populated targets.
    let mut cache = cache_with(8, 8);
    let tenant_a: u128 = 0xa;
    let p1: u128 = 101;
    let p2: u128 = 102;

    let first = cache.get(tenant_a, 0);
    assert!(matches!(first, Ok(None)));
    assert_eq!(cache.refresh_requests().as_slice(), &[tenant_a]);

    cache.populate(tenant_a, PopulationResult::Found(vec![p1, p2]), 10);
    assert!(cache.refresh_requests().is_empty());

    let second = cache.get(tenant_a, 10 + TTL_MS - 1);
    match second {
        Ok(Some(targets)) => assert_eq!(targets, vec![p1, p2]),
        other => panic!("expected a fresh hit, got {:?}", other.is_ok()),
    }
}

#[test]
fn expired_entry_is_never_served() {
    let mut cache = cache_with(8, 8);
    let tenant: u128 = 7;
    let _ = cache.get(tenant, 0);
    cache.populate(tenant, PopulationResult::Found(vec![1]), 0);

    // one instant before the deadline the value is served
    assert!(matches!(cache.get(tenant, TTL_MS - 1), Ok(Some(_))));
    // at the deadline the entry is treated as absent and a refresh enqueued
    assert!(matches!(cache.get(tenant, TTL_MS), Ok(None)));
    assert_eq!(cache.refresh_requests().as_slice(), &[tenant]);
}

#[test]
fn empty_resolution_is_cached() {
    // an explicit empty target set is a valid resolution: it is served, and
    // no further refresh is requested for the tenant
    let mut cache = cache_with(8, 8);
    let tenant: u128 = 9;
    let _ = cache.get(tenant, 0);
    cache.populate(tenant, PopulationResult::FoundEmpty, 0);

    match cache.get(tenant, 1) {
        Ok(Some(targets)) => assert!(targets.is_empty()),
        _ => panic!("expected the cached empty resolution"),
    }
    assert!(cache.refresh_requests().is_empty());
}

#[test]
fn concurrent_misses_coalesce_to_one_request() {
    // many gets for one key during an in-flight population leave exactly one
    // queued request
    let mut cache = cache_with(8, 8);
    let tenant: u128 = 3;
    for _ in 0..5 {
        assert!(matches!(cache.get(tenant, 0), Ok(None)));
    }
    assert_eq!(cache.refresh_requests().as_slice(), &[tenant]);
}

#[test]
fn full_refresh_queue_drops_request_silently() {
    let mut cache = cache_with(8, 1);
    assert!(matches!(cache.get(1, 0), Ok(None)));
    // the queue is full: the second tenant's request is dropped, the caller
    // still sees a plain miss
    assert!(matches!(cache.get(2, 0), Ok(None)));
    assert_eq!(cache.refresh_requests().as_slice(), &[1]);
}

#[test]
fn overflow_evicts_least_recently_used() {
    let mut cache = cache_with(2, 8);
    let _ = cache.get(1, 0);
    cache.populate(1, PopulationResult::Found(vec![11]), 0);
    let _ = cache.get(2, 0);
    cache.populate(2, PopulationResult::Found(vec![22]), 0);

    // touch tenant 1: tenant 2 becomes the least recently used
    assert!(matches!(cache.get(1, 1), Ok(Some(_))));

    let _ = cache.get(3, 1);
    cache.populate(3, PopulationResult::Found(vec![33]), 1);

    // tenant 2 was evicted; tenants 1 and 3 are still resident
    assert!(matches!(cache.get(2, 2), Ok(None)));
    assert!(matches!(cache.get(1, 2), Ok(Some(_))));
    assert!(matches!(cache.get(3, 2), Ok(Some(_))));
}

#[test]
fn retryable_population_failure_is_surfaced_once() {
    let mut cache = cache_with(8, 8);
    let tenant: u128 = 5;
    let _ = cache.get(tenant, 0);
    cache.populate(
        tenant,
        PopulationResult::FailedRetryable(String::from("discovery timed out")),
        0,
    );

    match cache.get(tenant, 1) {
        Err(CacheError::Retryable(reason)) => assert_eq!(reason, "discovery timed out"),
        _ => panic!("expected the retryable failure to surface"),
    }
    // the failure was consumed: the next get is an ordinary miss again
    assert!(matches!(cache.get(tenant, 2), Ok(None)));
    assert_eq!(cache.refresh_requests().as_slice(), &[tenant]);
}

#[test]
fn fatal_population_failure_is_surfaced_as_fatal() {
    let mut cache = cache_with(8, 8);
    let tenant: u128 = 6;
    let _ = cache.get(tenant, 0);
    cache.populate(tenant, PopulationResult::FailedFatal(String::from("bad credentials")), 0);

    match cache.get(tenant, 1) {
        Err(CacheError::Fatal(reason)) => assert_eq!(reason, "bad credentials"),
        _ => panic!("expected the fatal failure to surface"),
    }
}

#[test]
fn failed_population_does_not_touch_entries() {
    let mut cache = cache_with(8, 8);
    let tenant: u128 = 4;
    let _ = cache.get(tenant, 0);
    cache.populate(tenant, PopulationResult::Found(vec![44]), 0);

    // the entry expires; the refresh fails; the old value must still not be
    // served, and the failure must not have installed anything
    let _ = cache.get(tenant, TTL_MS);
    cache.populate(tenant, PopulationResult::FailedRetryable(String::from("flaky")), TTL_MS);
    assert!(matches!(cache.get(tenant, TTL_MS + 1), Err(CacheError::Retryable(_))));
    assert!(matches!(cache.get(tenant, TTL_MS + 2), Ok(None)));
}
