use niri_bar::layer_shell::missing_library_error_message;
use niri_bar::local_time::LocalTime;
use niri_bar::logger::{
    asks_for_debug,
    format_journal_payload, format_log_line, log_file_path, log_file_step, panic_message,
    parse_debug_flag, priority_for_level, should_rotate_log, timestamp, LogFileStep,
};
use niri_bar::style::{check_braces, read_error, reload_styles, startup_error, validate_css, DEFAULT_CSS};

#[test]
fn test_missing_library_error_message_contains_package_managers() {
    let msg = missing_library_error_message();
    assert!(msg.contains("gtk-layer-shell"));
    assert!(msg.contains("libgtk-layer-shell.so.0"));
    assert!(msg.contains("dnf install gtk-layer-shell"));
    assert!(msg.contains("pacman -S gtk-layer-shell"));
    assert!(msg.contains("apt install libgtk-layer-shell0"));
}

#[test]
fn test_validate_css() {
    let valid_css = ".niri-bar { color: #ffffff; }";
    assert!(validate_css(valid_css, None).is_ok());

    let invalid_braces = ".niri-bar { color: #ffffff;";
    assert!(validate_css(invalid_braces, None).is_err());
}

#[test]
fn test_should_rotate_log() {
    assert!(!should_rotate_log(0));
    assert!(!should_rotate_log(5 * 1024 * 1024));
    assert!(should_rotate_log(5 * 1024 * 1024 + 1));
}

#[test]
fn test_priority_for_level() {
    assert_eq!(priority_for_level("ERROR"), "3");
    assert_eq!(priority_for_level("FATAL PANIC"), "3");
    assert_eq!(priority_for_level("WARN"), "4");
    assert_eq!(priority_for_level("INFO"), "6");
    assert_eq!(priority_for_level("DEBUG"), "7");
    assert_eq!(priority_for_level("UNKNOWN"), "6");
}

#[test]
fn test_format_log_line() {
    let formatted = format_log_line("2026-09-01 12:00:00.000", "INFO", "taskbar", "Window 42 focused");
    assert_eq!(
        formatted,
        "[2026-09-01 12:00:00.000] [INFO ] [taskbar] Window 42 focused"
    );
}

#[test]
fn test_format_journal_payload() {
    let payload = format_journal_payload("volume", "Volume changed to 80%", "6");
    assert!(payload.contains("MESSAGE=[volume] Volume changed to 80%"));
    assert!(payload.contains("SYSLOG_IDENTIFIER=niri-bar"));
    assert!(payload.contains("PRIORITY=6"));
    assert!(payload.contains("NIRI_TAG=volume"));
}

#[test]
fn test_parse_debug_flag() {
    // RUST_LOG variants
    assert!(parse_debug_flag(Some("debug"), None));
    assert!(parse_debug_flag(Some("niri_bar=trace"), None));
    assert!(parse_debug_flag(Some("1"), None));
    assert!(!parse_debug_flag(Some("info"), None));
    assert!(!parse_debug_flag(Some("warn"), None));

    // NIRI_BAR_DEBUG variants
    assert!(parse_debug_flag(None, Some("1")));
    assert!(parse_debug_flag(None, Some("true")));
    assert!(parse_debug_flag(None, Some("TRUE")));
    assert!(!parse_debug_flag(None, Some("0")));
    assert!(!parse_debug_flag(None, Some("false")));

    // Both None
    assert!(!parse_debug_flag(None, None));
}

#[test]
fn test_timestamp_non_empty() {
    let ts = timestamp(&LocalTime { secs: 1_788_263_999, nanos: 250_000_000, offset: 7200 }).unwrap();
    assert!(!ts.is_empty());
    assert!(ts.contains('-'));
    assert!(ts.contains(':'));
}

#[test]
fn timestamps_count_milliseconds_in_the_time_zone() {
    let noon = LocalTime { secs: 0, nanos: 7_000_000, offset: 3600 };
    assert_eq!(timestamp(&noon).as_deref(), Some("1970-01-01 01:00:00.007"));
    let nowhere = LocalTime { secs: 0, nanos: 0, offset: 86_400 };
    assert_eq!(timestamp(&nowhere), None);
}

#[test]
fn formats_that_are_not_known_give_no_text() {
    let t = LocalTime { secs: 0, nanos: 0, offset: 0 };
    assert_eq!(t.format("%H:%M %a %b").as_deref(), Some("00:00 Thu Jan"));
    assert_eq!(t.format("%Q"), None);
}

#[test]
fn levels_are_padded_to_five() {
    assert_eq!(format_log_line("t", "ERROR", "a", "b"), "[t] [ERROR] [a] b");
    assert_eq!(format_log_line("t", "FATAL PANIC", "a", "b"), "[t] [FATAL PANIC] [a] b");
}

#[test]
fn the_payload_of_the_journal_is_exact() {
    assert_eq!(
        format_journal_payload("a", "b", "7"),
        "MESSAGE=[a] b\nSYSLOG_IDENTIFIER=niri-bar\nPRIORITY=7\nNIRI_TAG=a\n"
    );
}

#[test]
fn the_log_file_follows_the_environment() {
    assert_eq!(log_file_path(Some("/run/user/1"), None, None).as_deref(), Some("/run/user/1/niri-bar.log"));
    assert_eq!(log_file_path(Some(" "), Some("7"), Some("8")).as_deref(), Some("/tmp/niri-bar-7.log"));
    assert_eq!(log_file_path(None, None, Some("8")).as_deref(), Some("/tmp/niri-bar-8.log"));
    assert_eq!(log_file_path(None, None, None), None);
}

#[test]
fn links_are_refused_and_long_logs_put_aside() {
    assert_eq!(log_file_step(None), LogFileStep::Append);
    assert_eq!(log_file_step(Some((true, 9_000_000))), LogFileStep::Refuse);
    assert_eq!(log_file_step(Some((false, 5 * 1024 * 1024 + 1))), LogFileStep::Rotate);
    assert_eq!(log_file_step(Some((false, 5 * 1024 * 1024))), LogFileStep::Append);
}

#[test]
fn panics_are_told_with_their_place() {
    assert_eq!(panic_message(Some("src/a.rs:1"), Some("boom")), "at src/a.rs:1: boom");
    assert_eq!(panic_message(None, None), "at unknown: unspecified error payload");
}

#[test]
fn sheets_are_refused_with_words() {
    assert_eq!(
        check_braces("a { b { }"),
        Err("CSS error: mismatched curly braces: 2 '{' vs 1 '}'".to_string())
    );
    assert_eq!(validate_css("a { }", Some("bad color")), Err("CSS error: bad color".to_string()));
    assert_eq!(read_error("/x", "gone"), "Failed to read /x: gone");
    assert_eq!(reload_styles(Err(("/x", "gone")), None), Err("Failed to read /x: gone".to_string()));
    assert_eq!(reload_styles(Ok("a { }"), None), Ok(()));
    assert_eq!(startup_error(None, None), None);
    assert_eq!(startup_error(Some(("/x", "gone")), None).as_deref(), Some("CSS error: Failed to read /x: gone"));
    assert_eq!(startup_error(Some(("/x", "gone")), Some("bad")).as_deref(), Some("CSS error: bad"));
}

#[test]
fn test_default_css_integrity() {
    assert!(!DEFAULT_CSS.is_empty());
    assert!(DEFAULT_CSS.contains(".niri-bar"));
    assert!(DEFAULT_CSS.contains(".app-button"));
    assert!(DEFAULT_CSS.contains(".module-item"));
    assert!(DEFAULT_CSS.contains(".tray"));
    assert!(DEFAULT_CSS.contains(".tray-item"));
    assert!(DEFAULT_CSS.contains(".tray-menu {\n    background-color: #313244;"));

    // Check balanced braces
    let open_braces = DEFAULT_CSS.matches('{').count();
    let close_braces = DEFAULT_CSS.matches('}').count();
    assert_eq!(open_braces, close_braces, "CSS has mismatched curly braces");
}

#[test]
fn debug_is_asked_for_by_words_in_lower_case() {
    assert!(asks_for_debug(Some("niri_bar=trace"), None));
    assert!(asks_for_debug(Some("1"), None));
    assert!(!asks_for_debug(Some("DEBUG"), None));
    assert!(asks_for_debug(None, Some("True")));
    assert!(!asks_for_debug(None, None));
}
