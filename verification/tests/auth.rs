use actioneer::auth::AuthAttemptTracker;

#[test]
fn auth_attempt_tracker_invalidates_stale_attempts() {
    let mut tracker = AuthAttemptTracker::default();
    let first = tracker.begin_attempt();
    assert!(tracker.is_current(first));

    let second = tracker.begin_attempt();
    assert!(!tracker.is_current(first));
    assert!(tracker.is_current(second));

    tracker.cancel_active_attempt();
    assert!(!tracker.is_current(second));
}
