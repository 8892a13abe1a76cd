use stats::cache::{Cache, CacheState, Role};

#[test]
fn one_winner_computes_while_everyone_else_waits() {
    let mut cache: Cache<u64> = Cache::new();
    // The first caller wins the race and is told to compute.
    assert_eq!(cache.request(false), Role::Compute);
    // Any number of callers arriving while the flight is up just wait,
    // whatever mode they ask for: no second computation starts.
    for force in [false, true, false, true, false] {
        assert_eq!(cache.request(force), Role::Wait);
    }
    // The winner reports; the outcome is shared without recomputation.
    cache.complete_success(42, false);
    assert_eq!(cache.request(false), Role::Reuse);
    assert_eq!(*cache.cached_value(), 42);
    assert_eq!(cache.request(false), Role::Reuse);
    assert_eq!(*cache.cached_value(), 42);
}

#[test]
fn failed_computation_is_not_replayed() {
    let mut cache: Cache<u64> = Cache::new();
    assert_eq!(cache.request(false), Role::Compute);
    cache.complete_failure();
    // The failure did not poison the entry: the next caller starts fresh.
    assert_eq!(cache.request(false), Role::Compute);
    cache.complete_success(7, false);
    assert_eq!(*cache.cached_value(), 7);
}

#[test]
fn finished_value_never_serves_a_different_mode() {
    let mut cache: Cache<u64> = Cache::new();
    assert_eq!(cache.request(false), Role::Compute);
    cache.complete_success(5, false);
    // An incremental value must not satisfy a force-full request.
    assert_eq!(cache.request(true), Role::Compute);
    assert!(matches!(cache.state, CacheState::InFlight));
    cache.complete_success(9, true);
    assert_eq!(cache.request(true), Role::Reuse);
    assert_eq!(*cache.cached_value(), 9);
}

#[test]
fn invalidation_resets_the_entry() {
    let mut cache: Cache<u64> = Cache::new();
    assert_eq!(cache.request(false), Role::Compute);
    cache.complete_success(3, false);
    cache.invalidate();
    assert!(matches!(cache.state, CacheState::Empty));
    assert_eq!(cache.request(false), Role::Compute);
}
