//! Configuration defaults.

use md_docs::domain::Config;

#[test]
fn config_tests_test_default_config_no_default_template() {
    let config = Config::default();
    assert!(config.default_template().is_none());
}

#[test]
fn config_tests_test_default_config_no_default_brand() {
    let config = Config::default();
    assert!(config.default_brand().is_none());
}

#[test]
fn config_tests_test_default_config_no_author() {
    let config = Config::default();
    assert!(config.author().is_none());
}

#[test]
fn config_tests_test_default_config_no_output_dir() {
    let config = Config::default();
    assert!(config.output_dir().is_none());
}
