use geese::health::health_verdict;
use geese::health::HealthHandle;
use geese::health::HEALTHY_GRACE_NANOS;

#[test]
fn verdict_needs_status_and_recent_heartbeat() {
    assert!(health_verdict(true, 0));
    assert!(health_verdict(true, HEALTHY_GRACE_NANOS - 1));
    assert!(!health_verdict(true, HEALTHY_GRACE_NANOS));
    assert!(!health_verdict(false, 0));
}

#[test]
fn handle_reports_status() {
    let shared = HealthHandle::new("127.0.0.1:0".into());
    let mut h = shared.try_lock().unwrap();
    assert!(h.is_healthy());
    h.set_health_status(false);
    assert!(!h.is_healthy());
    h.set_health_status(true);
    h.heartbeat();
    assert!(h.is_healthy());
}

#[test]
fn fresh_handle_is_healthy() {
    let mut h = HealthHandle::healthy_now("127.0.0.1:1".into());
    assert!(h.is_healthy());
    h.heartbeat();
    assert!(h.is_healthy());
}
