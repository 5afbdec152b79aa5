//! Message formatting and log lines.

use md_docs::logger::FileLogger;
use md_docs::output::CliMessage;
use std::path::PathBuf;

#[test]
fn output_tests_test_success_formatted_contains_checkmark_and_message() {
    let msg = CliMessage::Success("done".to_string());
    let output = msg.formatted();
    assert!(output.contains("done"));
    // Checkmark may have ANSI codes; verify output is longer than bare message
    assert!(output.contains("\u{2713}") || output.len() > "done".len());
}

#[test]
fn output_tests_test_info_formatted_contains_message() {
    let msg = CliMessage::Info("compiling...".to_string());
    let output = msg.formatted();
    assert!(output.contains("compiling..."));
}

#[test]
fn output_tests_test_warning_formatted_contains_prefix_and_message() {
    let msg = CliMessage::Warning("missing font".to_string());
    let output = msg.formatted();
    assert!(output.contains("warning:"));
    assert!(output.contains("missing font"));
}

#[test]
fn output_tests_test_error_formatted_contains_prefix_and_message() {
    let msg = CliMessage::Error("file not found".to_string());
    let output = msg.formatted();
    assert!(output.contains("error:"));
    assert!(output.contains("file not found"));
}

#[test]
fn output_tests_test_log_formatted_contains_message() {
    let msg = CliMessage::Log("debug info".to_string());
    let output = msg.formatted();
    assert!(output.contains("debug info"));
}

#[test]
fn output_tests_test_plain_formatted_is_passthrough() {
    let msg = CliMessage::Plain("raw text".to_string());
    let output = msg.formatted();
    assert_eq!(output, "raw text");
}

#[test]
fn output_tests_test_display_impl_matches_formatted() {
    let msg = CliMessage::Success("test".to_string());
    assert_eq!(msg.formatted(), msg.formatted());
}

#[test]
fn output_tests_test_logger_entry_contains_level_and_message() {
    let logger = FileLogger::with_path(PathBuf::from("/tmp/test.log"));
    let content = logger.log(42, "WARN", "test warning");
    assert!(content.contains("[WARN]"));
    assert!(content.contains("test warning"));
}

#[test]
fn output_tests_test_log_message_maps_cli_message_variants() {
    let logger = FileLogger::with_path(PathBuf::from("/tmp/test.log"));
    let mut content = String::new();
    content.push_str(&logger.log_message(1, &CliMessage::Success("ok".to_string())));
    content.push_str(&logger.log_message(2, &CliMessage::Warning("caution".to_string())));
    content.push_str(&logger.log_message(3, &CliMessage::Error("fail".to_string())));
    assert!(content.contains("[SUCCESS]"));
    assert!(content.contains("[WARN]"));
    assert!(content.contains("[ERROR]"));
}
