use clipvault::dedup::DedupGuard;
use clipvault::relay::{BoundedRelay, DEFAULT_RELAY_CAPACITY};

fn strings(vals: &[&str]) -> Vec<String> {
    let mut v: Vec<String> = Vec::new();
    for s in vals {
        v.push(s.to_string());
    }
    v
}

#[test]
fn runs_collapse_to_one_event_each() {
    let mut guard = DedupGuard::new();
    let samples = strings(&["a", "a", "a", "b", "b", "a"]);
    let accepted = guard.observe_all(&samples);
    assert_eq!(accepted, strings(&["a", "b", "a"]));
}

#[test]
fn observe_reports_changes_only() {
    let mut guard = DedupGuard::new();
    assert!(guard.observe(&"x".to_string()));
    assert!(!guard.observe(&"x".to_string()));
    assert!(guard.observe(&"y".to_string()));
    assert!(guard.observe(&"x".to_string()));
}

#[test]
fn empty_sample_repeats_initial_state() {
    let mut guard = DedupGuard::new();
    assert!(!guard.observe(&String::new()));
    assert!(guard.observe(&"a".to_string()));
}

#[test]
fn relay_is_fifo() {
    let mut relay = BoundedRelay::new(4);
    assert!(relay.try_submit("first".to_string()));
    assert!(relay.try_submit("second".to_string()));
    assert!(relay.try_submit("third".to_string()));
    assert_eq!(relay.recv(), Some("first".to_string()));
    assert_eq!(relay.recv(), Some("second".to_string()));
    assert_eq!(relay.recv(), Some("third".to_string()));
    assert_eq!(relay.recv(), None);
}

#[test]
fn relay_refuses_when_full_and_drops_nothing() {
    let mut relay = BoundedRelay::with_default_capacity();
    for i in 0..DEFAULT_RELAY_CAPACITY {
        assert!(!relay.is_full());
        assert!(relay.try_submit(format!("m{}", i)));
    }
    assert!(relay.is_full());
    assert!(!relay.try_submit("overflow".to_string()));
    assert_eq!(relay.len(), DEFAULT_RELAY_CAPACITY);
    assert_eq!(relay.recv(), Some("m0".to_string()));
    assert!(relay.try_submit("overflow".to_string()));
    assert_eq!(relay.len(), DEFAULT_RELAY_CAPACITY);
}
