use dmodman::events::EventSource;
use dmodman::log::{err, format_line, info, log_file};
use dmodman::logger::{LogAction, Logger};
use dmodman::prelude::log;

#[test]
fn log_line_format() {
    assert_eq!(format_line("2024-01-02 03:04:05", "INFO", "hello"), "2024-01-02 03:04:05: [INFO] - hello\n");
    let l = info("started");
    assert!(l.ends_with(": [INFO] - started\n"));
    assert_eq!(l.len(), "2024-01-02 03:04:05: [INFO] - started\n".len());
    let e = err("failed");
    assert!(e.ends_with(": [ERROR] - failed\n"));
    assert_eq!(log_file("/home/u/.local/share/dmodman"), "/home/u/.local/share/dmodman/log");
}

#[test]
fn interactive_logger_keeps_messages() {
    let mut logger = Logger::new(true);
    match logger.log("one".to_string()) {
        LogAction::Record { line, event } => {
            assert_eq!(line, "one\n");
            assert_eq!(event, EventSource::Log);
        },
        LogAction::Print(_) => panic!("interactive logger does not print"),
    }
    match log(&mut logger, "two".to_string()) {
        LogAction::Record { line, .. } => assert_eq!(line, "two\n"),
        LogAction::Print(_) => panic!("interactive logger does not print"),
    }
    assert_eq!(logger.messages, vec!["one".to_string(), "two".to_string()]);
    assert!(logger.remove(0));
    assert_eq!(logger.messages, vec!["two".to_string()]);
}

#[test]
fn background_logger_prints() {
    let mut logger = Logger::new(false);
    match logger.log("msg".to_string()) {
        LogAction::Print(m) => assert_eq!(m, "msg"),
        LogAction::Record { .. } => panic!("non-interactive logger prints"),
    }
    assert!(logger.messages.is_empty());
    assert!(!logger.remove(0));
}

#[test]
fn default_logger_only_prints() {
    let mut l = dmodman::logger::Logger::default();
    assert!(l.messages.is_empty());
    assert!(!l.is_interactive);
    match l.log("hello".to_string()) {
        dmodman::logger::LogAction::Print(m) => assert_eq!(m, "hello"),
        _ => panic!("expected the message to be printed"),
    }
    assert!(l.messages.is_empty());
}
