//! Configuration defaults and loading, fonts, and log lines.

use md_docs::domain::{Config, ConfigLoader};
use md_docs::fonts;
use md_docs::logger::FileLogger;
use md_docs::output::CliMessage;
use std::path::PathBuf;

// =========================================================================
// ConfigLoader::load
// =========================================================================

#[test]
fn test_load_succeeds() {
    // Execute -- no configuration file exists: the defaults
    let config = ConfigLoader::load(None, None);
    assert!(config.default_template().is_none());
    assert!(config.default_brand().is_none());
    assert!(config.author().is_none());
    assert!(config.output_dir().is_none());
    assert!(config.repos().is_empty());
    assert!(config.local().is_empty());
}

// =========================================================================
// Config defaults
// =========================================================================

#[test]
fn test_default_config_empty_repos() {
    let config = Config::default();
    assert!(config.repos().is_empty());
}

#[test]
fn test_default_config_empty_local() {
    let config = Config::default();
    assert!(config.local().is_empty());
}

#[test]
fn tests_test_default_config_no_default_template() {
    let config = Config::default();
    assert!(config.default_template().is_none());
}

#[test]
fn tests_test_default_config_no_default_brand() {
    let config = Config::default();
    assert!(config.default_brand().is_none());
}

#[test]
fn tests_test_default_config_no_author() {
    let config = Config::default();
    assert!(config.author().is_none());
}

#[test]
fn tests_test_default_config_no_output_dir() {
    let config = Config::default();
    assert!(config.output_dir().is_none());
}

// =========================================================================
// fallback_font
// =========================================================================

#[test]
fn tests_test_fallback_font_returns_known_font_name() {
    // Execute
    let name = fonts::fallback_font();

    // Assert -- should return a non-empty known font name
    assert!(!name.is_empty(), "fallback font name should not be empty");
    assert!(
        name == "New Computer Modern"
            || name.contains("Computer Modern")
            || name.contains("serif")
            || name.contains("sans"),
        "fallback font should be a known font family: got '{}'",
        name
    );
}

#[test]
fn tests_test_fallback_font_is_stable() {
    // Execute -- call twice, should return the same value
    let first = fonts::fallback_font();
    let second = fonts::fallback_font();

    // Assert
    assert_eq!(first, second, "fallback font should be deterministic");
}

#[test]
fn tests_test_nonexistent_font_is_not_available() {
    let result = fonts::is_font_available("Definitely Not A Real Font Name 12345");
    assert!(!result, "nonexistent font should not be available");
}

// =========================================================================
// FileLogger
// =========================================================================

#[test]
fn tests_test_logger_entry_contains_level_and_message() {
    let logger = FileLogger::with_path(PathBuf::from("/tmp/test.log"));
    let content = logger.log(1700000000, "WARN", "test warning");
    assert!(content.contains("[WARN]"));
    assert!(content.contains("test warning"));
}

#[test]
fn tests_test_log_message_maps_cli_message_variants() {
    let logger = FileLogger::with_path(PathBuf::from("/tmp/test.log"));
    let mut content = String::new();
    content.push_str(&logger.log_message(1, &CliMessage::Success("ok".to_string())));
    content.push_str(&logger.log_message(2, &CliMessage::Warning("caution".to_string())));
    content.push_str(&logger.log_message(3, &CliMessage::Error("fail".to_string())));
    assert!(content.contains("[SUCCESS]"));
    assert!(content.contains("[WARN]"));
    assert!(content.contains("[ERROR]"));
}
