use featherpull::job::{JobId, JobIdAllocator, JobStatus};
use featherpull::logs::{format_logs_for_clipboard, log_line, LogBuffer, LogEntry, LogLevel, LogPanelAction};
use featherpull::views::{can_cancel, can_retry, last_action, status_label, string_options, QueueViewAction};

fn entry(level: LogLevel, message: &str) -> LogEntry {
    LogEntry::new(level, message)
}

#[test]
fn queue_view_action_default_is_none() {
    assert_eq!(QueueViewAction::default(), QueueViewAction::NoAction);
}

#[test]
fn status_badge_maps_each_status_to_japanese_label() {
    assert_eq!(status_label(&JobStatus::Queued), "待機中");
    assert_eq!(status_label(&JobStatus::Downloading { progress: 0, speed: None, eta: None }), "取得中");
    assert_eq!(status_label(&JobStatus::Converting { progress: 0 }), "変換中");
    assert_eq!(status_label(&JobStatus::Completed), "完了");
    assert_eq!(status_label(&JobStatus::Failed { message: "エラー".to_string() }), "失敗");
    assert_eq!(status_label(&JobStatus::Cancelled), "キャンセル済み");
}

#[test]
fn log_buffer_push_keeps_entries_within_capacity() {
    let mut buffer = LogBuffer::new(3);
    buffer.push(entry(LogLevel::Info, "1"));
    buffer.push(entry(LogLevel::Info, "2"));
    buffer.push(entry(LogLevel::Info, "3"));

    assert_eq!(buffer.len(), 3);
}

#[test]
fn log_buffer_discards_oldest_entry_when_over_capacity() {
    let mut buffer = LogBuffer::new(2);
    buffer.push(entry(LogLevel::Info, "oldest"));
    buffer.push(entry(LogLevel::Info, "middle"));
    buffer.push(entry(LogLevel::Warn, "newest"));

    assert_eq!(buffer.len(), 2);
    let messages: Vec<&str> = buffer.as_slice().iter().map(|e| e.message.as_str()).collect();
    assert_eq!(messages, vec!["middle", "newest"]);
}

#[test]
fn log_buffer_clear_empties_entries() {
    let mut buffer = LogBuffer::new(5);
    buffer.push(entry(LogLevel::Error, "boom"));
    assert!(!buffer.is_empty());

    buffer.clear();

    assert!(buffer.is_empty());
    assert_eq!(buffer.len(), 0);
}

#[test]
fn log_buffer_capacity_is_at_least_one() {
    let buffer = LogBuffer::new(0);
    assert_eq!(buffer.capacity(), 1);
}

#[test]
fn log_buffer_default_has_reasonable_capacity() {
    let buffer = LogBuffer::default();
    assert_eq!(buffer.capacity(), 500);
    assert!(buffer.is_empty());
}

#[test]
fn log_level_labels_match_expected_text() {
    assert_eq!(LogLevel::Info.label(), "INFO");
    assert_eq!(LogLevel::Warn.label(), "WARN");
    assert_eq!(LogLevel::Error.label(), "ERROR");
}

#[test]
fn format_logs_for_clipboard_joins_entries_with_newlines() {
    let logs = vec![entry(LogLevel::Info, "first"), entry(LogLevel::Error, "second")];

    let formatted = format_logs_for_clipboard(&logs);
    let lines: Vec<&str> = formatted.lines().collect();

    assert_eq!(lines.len(), 2);
    assert!(lines[0].contains("INFO"));
    assert!(lines[0].contains("first"));
    assert!(lines[1].contains("ERROR"));
    assert!(lines[1].contains("second"));
}

#[test]
fn log_panel_action_default_is_none() {
    assert_eq!(LogPanelAction::default(), LogPanelAction::NoAction);
}

// ---- further cases ----

#[test]
fn log_line_has_time_level_and_message() {
    let e = entry(LogLevel::Warn, "hello");
    let line = log_line(&e);
    assert!(line.starts_with('['));
    assert!(line.ends_with("] WARN hello"));
    // "[YYYY-MM-DD HH:MM:SS] " is 22 characters.
    assert_eq!(line.chars().nth(21), Some(' '));
    assert_eq!(line.len(), "[2025-01-01 00:00:00] WARN hello".len());
    assert!(format_logs_for_clipboard(&[]).is_empty());
}

#[test]
fn log_buffer_keeps_the_latest_entries_in_order() {
    let mut buffer = LogBuffer::new(3);
    for i in 0..7 {
        buffer.push(entry(LogLevel::Info, &i.to_string()));
    }
    let messages: Vec<String> = buffer.as_slice().iter().map(|e| e.message.clone()).collect();
    assert_eq!(messages, vec!["4", "5", "6"]);
    assert_eq!(buffer.capacity(), 3);
}

#[test]
fn cancel_and_retry_are_offered_by_state() {
    assert!(can_cancel(&JobStatus::Queued));
    assert!(can_cancel(&JobStatus::Converting { progress: 10 }));
    assert!(!can_cancel(&JobStatus::Completed));
    assert!(!can_cancel(&JobStatus::Failed { message: "x".to_string() }));
    assert!(can_retry(&JobStatus::Failed { message: "x".to_string() }));
    assert!(!can_retry(&JobStatus::Cancelled));
}

#[test]
fn the_last_card_that_asks_wins() {
    let mut allocator = JobIdAllocator::new();
    let a = JobId::new(&mut allocator);
    let b = JobId::new(&mut allocator);
    let actions = [QueueViewAction::Cancel(a), QueueViewAction::NoAction, QueueViewAction::Retry(b), QueueViewAction::NoAction];
    assert_eq!(last_action(&actions), QueueViewAction::Retry(b));
    assert_eq!(last_action(&[QueueViewAction::NoAction]), QueueViewAction::NoAction);
}

#[test]
fn options_become_owned_strings() {
    assert_eq!(string_options(&["best", "1080p"]), vec!["best".to_string(), "1080p".to_string()]);
}
