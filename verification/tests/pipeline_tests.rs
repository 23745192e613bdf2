use clipvault::classify::ContentType;
use clipvault::pipeline::{process_message, Pipeline, PollOutcome};
use clipvault::storage::HistoryLog;

fn ts(n: usize) -> String {
    format!("2024-01-15T10:30:0{}+00:00", n % 10)
}

#[test]
fn scenario_repeated_then_new_sample() {
    let mut p = Pipeline::new(HistoryLog::new(), 10);
    assert_eq!(p.poll(&"x".to_string()), PollOutcome::Enqueued);
    assert_eq!(p.poll(&"x".to_string()), PollOutcome::Unchanged);
    assert_eq!(p.poll(&"y".to_string()), PollOutcome::Enqueued);
    assert_eq!(p.pending_len(), 2);
    assert_eq!(p.drain_one(ts(1)), Some(true));
    assert_eq!(p.drain_one(ts(2)), Some(true));
    assert_eq!(p.drain_one(ts(3)), None);
    let rows = p.history(10);
    assert_eq!(rows.len(), 2);
    assert_eq!(rows[1].content, "x");
    assert_eq!(rows[0].content, "y");
    assert_eq!(rows[0].content_type, ContentType::Text);
    assert_eq!(rows[1].content_type, ContentType::Text);
    assert_eq!(p.notified_payloads(), &vec!["x".to_string(), "y".to_string()]);
}

#[test]
fn scenario_at_rest_dedup_after_restart() {
    let mut log = HistoryLog::new();
    let content = "{\"a\":1}".to_string();
    assert!(process_message(&mut log, &content, ts(1)));
    assert!(!process_message(&mut log, &content, ts(2)));
    let rows = log.list_recent(10);
    assert_eq!(rows.len(), 1);
    assert_eq!(rows[0].content, "{\"a\":1}");
    assert_eq!(rows[0].content_type, ContentType::Json);
}

#[test]
fn scenario_full_relay_blocks_until_drained() {
    let mut p = Pipeline::new(HistoryLog::new(), 10);
    for i in 0..10 {
        assert_eq!(p.poll(&format!("v{}", i)), PollOutcome::Enqueued);
    }
    let eleventh = "v10".to_string();
    assert_eq!(p.poll(&eleventh), PollOutcome::RelayFull);
    assert!(!p.resubmit(&eleventh));
    assert_eq!(p.drain_one(ts(1)), Some(true));
    assert!(p.resubmit(&eleventh));
    assert_eq!(p.pending_len(), 10);
}

#[test]
fn notification_fires_even_when_write_is_skipped() {
    let mut log = HistoryLog::new();
    assert!(process_message(&mut log, &"x".to_string(), ts(1)));
    let mut p = Pipeline::new(log, 10);
    assert_eq!(p.poll(&"x".to_string()), PollOutcome::Enqueued);
    assert_eq!(p.drain_one(ts(2)), Some(false));
    assert_eq!(p.history(10).len(), 1);
    assert_eq!(p.notified_payloads(), &vec!["x".to_string()]);
}

#[test]
fn drain_with_clock_stamps_a_timestamp() {
    let mut p = Pipeline::new(HistoryLog::new(), 10);
    assert_eq!(p.poll(&"x".to_string()), PollOutcome::Enqueued);
    assert_eq!(p.drain_one_now(), Some(true));
    let rows = p.history(10);
    assert_eq!(rows.len(), 1);
    assert!(!rows[0].timestamp.is_empty());
    assert!(rows[0].timestamp.contains('T'));
}

#[test]
fn classification_happens_at_write_time() {
    let mut p = Pipeline::new(HistoryLog::new(), 10);
    assert_eq!(p.poll(&"https://x.test".to_string()), PollOutcome::Enqueued);
    assert_eq!(p.poll(&"a\nb".to_string()), PollOutcome::Enqueued);
    assert_eq!(p.drain_one(ts(1)), Some(true));
    assert_eq!(p.drain_one(ts(2)), Some(true));
    let rows = p.history(10);
    assert_eq!(rows[1].content_type, ContentType::Url);
    assert_eq!(rows[0].content_type, ContentType::Multiline);
}
