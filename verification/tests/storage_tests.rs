use clipvault::classify::ContentType;
use clipvault::storage::{HistoryLog, DEFAULT_HISTORY_LIMIT};

fn insert(log: &mut HistoryLog, content: &str) -> bool {
    assert!(log.can_assign_id());
    log.insert_if_not_duplicate(
        content.to_string(),
        ContentType::Text,
        "2024-01-15T10:30:00+00:00".to_string(),
    )
}

#[test]
fn consecutive_duplicates_are_skipped() {
    let mut log = HistoryLog::new();
    assert!(insert(&mut log, "a"));
    assert!(!insert(&mut log, "a"));
    assert!(insert(&mut log, "b"));
    assert!(!insert(&mut log, "b"));
    assert!(insert(&mut log, "a"));
    let rows = log.list_recent(10);
    assert_eq!(rows.len(), 3);
    assert_eq!(rows[0].content, "a");
    assert_eq!(rows[1].content, "b");
    assert_eq!(rows[2].content, "a");
    for pair in rows.windows(2) {
        assert_ne!(pair[0].content, pair[1].content);
    }
}

#[test]
fn ids_grow_monotonically() {
    let mut log = HistoryLog::new();
    insert(&mut log, "a");
    insert(&mut log, "b");
    insert(&mut log, "c");
    let rows = log.list_recent(3);
    assert_eq!(rows[0].id, 3);
    assert_eq!(rows[1].id, 2);
    assert_eq!(rows[2].id, 1);
}

#[test]
fn list_recent_caps_at_limit_newest_first() {
    let mut log = HistoryLog::new();
    for i in 0..25 {
        insert(&mut log, &format!("entry {}", i));
    }
    let rows = log.list_recent(5);
    assert_eq!(rows.len(), 5);
    assert_eq!(rows[0].content, "entry 24");
    assert_eq!(rows[4].content, "entry 20");
    let all = log.list_recent(100);
    assert_eq!(all.len(), 25);
}

#[test]
fn list_recent_defaults_to_twenty() {
    let mut log = HistoryLog::new();
    for i in 0..25 {
        insert(&mut log, &format!("entry {}", i));
    }
    let rows = log.list_recent_opt(None);
    assert_eq!(rows.len(), DEFAULT_HISTORY_LIMIT);
    assert_eq!(rows.len(), 20);
    assert_eq!(rows[0].content, "entry 24");
    let three = log.list_recent_opt(Some(3));
    assert_eq!(three.len(), 3);
}

#[test]
fn delete_nonexistent_id_is_a_noop() {
    let mut log = HistoryLog::new();
    insert(&mut log, "a");
    insert(&mut log, "b");
    assert!(log.delete_by_id(999));
    assert_eq!(log.len(), 2);
}

#[test]
fn delete_existing_id_removes_only_that_row() {
    let mut log = HistoryLog::new();
    insert(&mut log, "a");
    insert(&mut log, "b");
    insert(&mut log, "c");
    assert!(log.delete_by_id(2));
    let rows = log.list_recent(10);
    assert_eq!(rows.len(), 2);
    assert_eq!(rows[0].content, "c");
    assert_eq!(rows[1].content, "a");
}

#[test]
fn delete_all_on_empty_store_succeeds() {
    let mut log = HistoryLog::new();
    assert!(log.delete_all());
    assert_eq!(log.len(), 0);
}

#[test]
fn delete_all_empties_the_log() {
    let mut log = HistoryLog::new();
    insert(&mut log, "a");
    insert(&mut log, "b");
    assert!(log.delete_all());
    assert_eq!(log.len(), 0);
    assert_eq!(log.most_recent_content(), None);
}

#[test]
fn most_recent_content_tracks_last_insert() {
    let mut log = HistoryLog::new();
    assert_eq!(log.most_recent_content(), None);
    insert(&mut log, "a");
    insert(&mut log, "b");
    assert_eq!(log.most_recent_content(), Some("b".to_string()));
}
