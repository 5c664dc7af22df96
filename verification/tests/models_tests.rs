use dl_omni::models::{Task, TaskStatus};

#[test]
fn status_names_are_lower_case() {
    assert_eq!(TaskStatus::Pending.as_str(), "pending");
    assert_eq!(TaskStatus::Downloading.as_str(), "downloading");
    assert_eq!(TaskStatus::Paused.as_str(), "paused");
    assert_eq!(TaskStatus::Merging.as_str(), "merging");
    assert_eq!(TaskStatus::Error.as_str(), "error");
    assert_eq!(TaskStatus::Completed.as_str(), "completed");
}

#[test]
fn status_round_trips_through_its_name() {
    let all = [
        TaskStatus::Pending,
        TaskStatus::Downloading,
        TaskStatus::Paused,
        TaskStatus::Merging,
        TaskStatus::Error,
        TaskStatus::Completed,
    ];
    for s in all.iter() {
        assert_eq!(TaskStatus::from_str(s.as_str()), *s);
    }
}

#[test]
fn unknown_status_name_reads_as_error() {
    assert_eq!(TaskStatus::from_str("\"completed\""), TaskStatus::Error);
    assert_eq!(TaskStatus::from_str("Completed"), TaskStatus::Error);
    assert_eq!(TaskStatus::from_str(""), TaskStatus::Error);
}

#[test]
fn new_task_is_pending_and_empty() {
    let t = Task::new(
        "id1".to_string(),
        "https://example.com/v".to_string(),
        "Title".to_string(),
        None,
        "best".to_string(),
        Some("1,2".to_string()),
        None,
        1700000000000,
    );
    assert_eq!(t.status, TaskStatus::Pending);
    assert_eq!(t.total_bytes, 0);
    assert_eq!(t.downloaded_bytes, 0);
    assert_eq!(t.eta, 0);
    assert_eq!(t.created_at, 1700000000000);
    assert_eq!(t.playlist_items.as_deref(), Some("1,2"));
    assert!(t.error_msg.is_none());
}

#[test]
fn stored_task_decodes_its_status() {
    let t = Task::from_stored(
        "a".to_string(),
        "u".to_string(),
        "t".to_string(),
        None,
        "paused",
        "best".to_string(),
        100,
        40,
        7,
        5,
        Some("boom".to_string()),
        None,
        None,
    );
    assert_eq!(t.status, TaskStatus::Paused);
    assert_eq!(t.total_bytes, 100);
    assert_eq!(t.downloaded_bytes, 40);
    assert_eq!(t.eta, 7);
    assert_eq!(t.created_at, 5);
    assert_eq!(t.error_msg.as_deref(), Some("boom"));
    let u = Task::from_stored(
        "a".to_string(),
        "u".to_string(),
        "t".to_string(),
        None,
        "weird",
        "best".to_string(),
        0,
        0,
        0,
        0,
        None,
        None,
        None,
    );
    assert_eq!(u.status, TaskStatus::Error);
}

