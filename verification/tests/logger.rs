use pullpiri::logd::logger::{
    enqueue_failure_report, enqueue_record, format_log_line, stdout_line, level_letter, no_runtime_report,
    notify_status, requeue_from, sanitize_log_message, timespec_to_ns, BoundedQueue, Ch,
    DrainAction, DrainCursor, DrainEvent, DrainState, LoggerError, LoggerState, NotifyOutcome,
};
use pullpiri::logd::{LogEnvelope, LOGD_SOCKET_PATH};

fn env(ts: u64, tag: &str, level: i32, message: &str) -> LogEnvelope {
    LogEnvelope {
        ts_real_ns: ts,
        tag: tag.to_string(),
        level,
        message: message.to_string(),
    }
}

#[test]
fn test_bounded_queue_basic() {
    let mut q = BoundedQueue::new(2);
    assert!(q.drain().is_empty());

    let env1 = env(100, "tag1", 1, "msg1");
    let env2 = env(200, "tag2", 2, "msg2");
    let env3 = env(300, "tag3", 3, "msg3");

    q.push_drop_oldest(env1);
    q.push_drop_oldest(env2);
    // Capacity is 2, so this should drop env1
    q.push_drop_oldest(env3);

    let drained = q.drain();
    assert_eq!(drained.len(), 2);
    assert_eq!(drained[0].message, "msg2");
    assert_eq!(drained[1].message, "msg3");
}

#[test]
fn test_bounded_queue_push_front_batch() {
    let mut q = BoundedQueue::new(2);

    // Empty batch
    q.push_front_batch(vec![]);

    let env1 = env(100, "tag1", 1, "msg1");
    let env2 = env(200, "tag2", 2, "msg2");
    let env3 = env(300, "tag3", 3, "msg3");

    q.push_front_batch(vec![env1, env2, env3]);
    let drained = q.drain();
    assert_eq!(drained.len(), 2);
}

#[test]
fn push_front_batch_keeps_the_first_items_in_order() {
    let mut q = BoundedQueue::new(4);
    q.push_drop_oldest(10);
    q.push_drop_oldest(11);
    q.push_front_batch(vec![1, 2, 3]);
    assert_eq!(q.drain(), vec![1, 2, 3, 10]);
}

#[test]
fn queue_never_exceeds_capacity() {
    let mut q = BoundedQueue::new(3);
    for i in 0..10 {
        q.push_drop_oldest(i);
        assert!(q.len() <= q.capacity());
    }
    assert_eq!(q.drain(), vec![7, 8, 9]);
    assert_eq!(q.len(), 0);
}

#[test]
fn zero_capacity_queue_grows() {
    let mut q = BoundedQueue::new(0);
    q.push_drop_oldest(1);
    q.push_drop_oldest(2);
    assert_eq!(q.drain(), vec![1, 2]);
}

#[test]
fn test_ch_socket_path() {
    assert_eq!(Ch::Logd.socket_path(), LOGD_SOCKET_PATH);
}

#[test]
fn test_sanitize_log_message_clean() {
    // Normal message — unchanged
    assert_eq!(sanitize_log_message("hello world"), "hello world");
}

#[test]
fn test_sanitize_log_message_newline_injection() {
    let malicious = "normal\nINJECTED: fake safety event";
    let sanitized = sanitize_log_message(malicious);
    assert!(!sanitized.contains('\n'), "newline must be removed");
    assert!(
        sanitized.contains("\\n"),
        "escaped sequence must be present"
    );
}

#[test]
fn test_sanitize_log_message_cr_injection() {
    let malicious = "msg\rfake-overwrite";
    let sanitized = sanitize_log_message(malicious);
    assert!(!sanitized.contains('\r'), "carriage return must be removed");
    assert!(
        sanitized.contains("\\r"),
        "escaped sequence must be present"
    );
}

#[test]
fn test_sanitize_log_message_combined() {
    let malicious = "line1\r\nINJECTED";
    let sanitized = sanitize_log_message(malicious);
    assert!(!sanitized.contains('\n'));
    assert!(!sanitized.contains('\r'));
    assert_eq!(sanitized, "line1\\r\\nINJECTED");
}

#[test]
fn sanitize_keeps_unicode() {
    assert_eq!(sanitize_log_message("ü\n€"), "ü\\n€");
    assert_eq!(sanitize_log_message(""), "");
}

#[test]
fn test_enqueue_not_initialized() {
    let mut logger: Option<LoggerState> = None;
    let res = enqueue_record(&mut logger, 1, 3, "test".to_string());
    assert!(res.is_err());
    assert_eq!(res, Err(LoggerError::NotInitialized));
}

#[test]
fn enqueue_into_initialized_logger() {
    let mut logger = Some(LoggerState::new("svc"));
    assert_eq!(enqueue_record(&mut logger, 42, 4, "hello".to_string()), Ok(()));
    let mut state = logger.unwrap();
    let items = state.queue.drain();
    assert_eq!(items, vec![env(42, "svc", 4, "hello")]);
}

#[test]
fn test_print_stdout_and_levels() {
    for lvl in 1..=8 {
        let e = env(1716447885000000000, "test-tag", lvl, "test message");
        let line = format_log_line("2024-05-23 07:04:45.000", &e);
        assert!(line.ends_with("test message"));
    }
    assert!(timespec_to_ns(1, 5) > 0);
}

#[test]
fn level_letters() {
    let letters: Vec<char> = (0..=7).map(level_letter).collect();
    assert_eq!(letters, vec!['?', 'V', 'D', 'I', 'W', 'E', 'F', '?']);
    assert_eq!(level_letter(-1), '?');
}

#[test]
fn console_line_layout() {
    let e = env(0, "tag\n", 3, "a\rb");
    let line = format_log_line("T", &e);
    let expected = format!(
        "{:<24} \u{2502} {:<2} \u{2502} {:<30} \u{2502} {}",
        "T", "I", "tag\\n", "a\\rb"
    );
    assert_eq!(line, expected);
}

#[test]
fn timespec_conversion() {
    assert_eq!(timespec_to_ns(2, 3), 2_000_000_003);
    assert_eq!(timespec_to_ns(0, 0), 0);
}

#[test]
fn logger_error_texts() {
    assert_eq!(LoggerError::NotInitialized.message(), "logger not initialized");
    assert_eq!(LoggerError::WorkerNotRunning.message(), "logger worker not running");
    assert_eq!(
        enqueue_failure_report("x\ny"),
        "[LOGGER ERROR] logger enqueue failed: x\\ny"
    );
    assert_eq!(
        no_runtime_report("m"),
        "[LOGGER WARNING] logger not running inside a Tokio runtime; dropping log: m"
    );
}

#[test]
fn notify_outcomes() {
    assert_eq!(notify_status(NotifyOutcome::Sent), Ok(()));
    assert_eq!(notify_status(NotifyOutcome::Full), Ok(()));
    assert_eq!(
        notify_status(NotifyOutcome::Closed),
        Err(LoggerError::WorkerNotRunning)
    );
}

#[test]
fn drain_empty_batch_is_idle() {
    let mut c = DrainCursor::new(false);
    assert_eq!(
        c.step(DrainEvent::Taken { count: 0 }),
        DrainAction::Finish { state: DrainState::Idle }
    );
}

#[test]
fn drain_connect_failure_requeues_everything() {
    let mut c = DrainCursor::new(false);
    assert_eq!(c.step(DrainEvent::Taken { count: 2 }), DrainAction::Connect);
    assert_eq!(
        c.step(DrainEvent::Connected { ok: false }),
        DrainAction::Requeue { from: 0 }
    );
    assert!(!c.connected);
}

#[test]
fn drain_sends_in_order_then_idles() {
    let mut c = DrainCursor::new(false);
    assert_eq!(c.step(DrainEvent::Taken { count: 3 }), DrainAction::Connect);
    assert_eq!(
        c.step(DrainEvent::Connected { ok: true }),
        DrainAction::Send { index: 0 }
    );
    assert_eq!(c.step(DrainEvent::Sent { ok: true }), DrainAction::Send { index: 1 });
    assert_eq!(c.step(DrainEvent::EncodeFailed), DrainAction::Send { index: 2 });
    assert_eq!(
        c.step(DrainEvent::Sent { ok: true }),
        DrainAction::Finish { state: DrainState::Idle }
    );
}

#[test]
fn drain_send_failure_requeues_rest() {
    let mut c = DrainCursor::new(true);
    assert_eq!(c.step(DrainEvent::Taken { count: 3 }), DrainAction::Send { index: 0 });
    assert_eq!(c.step(DrainEvent::Sent { ok: true }), DrainAction::Send { index: 1 });
    assert_eq!(
        c.step(DrainEvent::Sent { ok: false }),
        DrainAction::Requeue { from: 1 }
    );
    assert!(!c.connected);

    let mut q = BoundedQueue::new(10);
    q.push_drop_oldest(99);
    requeue_from(&mut q, vec![1, 2, 3], 1);
    assert_eq!(q.drain(), vec![2, 3, 99]);
}

#[test]
fn stdout_line_starts_with_the_local_time() {
    let e = env(1_700_000_000_123_456_789, "apiserver", 3, "hello\nworld");
    let line = stdout_line(&e);
    let time: String = line.chars().take(23).collect();
    assert_eq!(time.len(), 23);
    let b = time.as_bytes();
    assert_eq!((b[4], b[7], b[10], b[13], b[16], b[19]), (b'-', b'-', b' ', b':', b':', b'.'));
    assert!(time.ends_with("123"));
    assert_eq!(line, format_log_line(&time, &e));
    assert!(!line.contains('\n') && !line.contains('\r'));
    assert!(time
        .chars()
        .all(|c| c.is_ascii_digit() || "-:. ".contains(c)));
}
