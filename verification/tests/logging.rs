use p2p_app::logging::{
    get_tui_logs, init_logging, p2plog_debug, p2plog_error, p2plog_info, push_log, push_log_at,
    strip_ansi_codes, LogBuffer, MAX_LOGS,
};

#[test]
fn no_buffer_means_no_logs() {
    assert!(get_tui_logs(&None).is_empty());
}

#[test]
fn stamped_lines_are_kept_in_order() {
    let mut buf: Option<LogBuffer> = None;
    let line = push_log_at(&mut buf, "2024-01-01 00:00:00.000", "hello");
    assert_eq!(line, "[2024-01-01 00:00:00.000] hello");
    push_log_at(&mut buf, "t2", "world");
    assert_eq!(
        get_tui_logs(&buf),
        vec!["[2024-01-01 00:00:00.000] hello".to_string(), "[t2] world".to_string()]
    );
}

#[test]
fn buffer_keeps_newest_lines() {
    let mut buf: Option<LogBuffer> = None;
    init_logging(&mut buf);
    for i in 0..(MAX_LOGS + 5) {
        push_log_at(&mut buf, "t", &format!("line {i}"));
    }
    let logs = get_tui_logs(&buf);
    assert_eq!(logs.len(), MAX_LOGS);
    assert_eq!(logs[0], "[t] line 5");
    assert_eq!(logs[MAX_LOGS - 1], format!("[t] line {}", MAX_LOGS + 4));
    assert_eq!(buf.as_ref().unwrap().len(), MAX_LOGS);
    // Setting up again keeps what is there.
    init_logging(&mut buf);
    assert_eq!(get_tui_logs(&buf).len(), MAX_LOGS);
}

#[test]
fn level_tags() {
    let mut buf: Option<LogBuffer> = None;
    let d = p2plog_debug(&mut buf, "a");
    let i = p2plog_info(&mut buf, "b");
    let e = p2plog_error(&mut buf, "c");
    let p = push_log(&mut buf, "d");
    assert!(d.starts_with('[') && d.ends_with("] [DEBUG] a"));
    assert!(i.ends_with("] [INFO] b"));
    assert!(e.ends_with("] [ERROR] c"));
    assert!(p.ends_with("] d"));
    assert_eq!(get_tui_logs(&buf), vec![d, i, e, p]);
}

#[test]
fn strip_ansi_removes_color_codes() {
    assert_eq!(strip_ansi_codes("\x1b[31mred\x1b[0m plain"), "red plain");
    assert_eq!(strip_ansi_codes("no codes"), "no codes");
    assert_eq!(strip_ansi_codes("\x1b[1;32"), "");
}
