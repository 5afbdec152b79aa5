//! Fonts.

use md_docs::fonts;

#[test]
fn fonts_tests_test_fallback_font_returns_known_font_name() {
    // Execute
    let name = fonts::fallback_font();

    // Assert -- should return a non-empty known font name
    assert!(!name.is_empty(), "fallback font name should not be empty");
    // Should be "New Computer Modern" or another known embedded font
    assert!(
        name == "New Computer Modern"
            || name.contains("Computer Modern")
            || name.contains("serif")
            || name.contains("sans"),
        "fallback font should be a known font family: got '{}'",
        name
    );
}

#[test]
fn fonts_tests_test_fallback_font_is_stable() {
    // Execute -- call twice, should return the same value
    let first = fonts::fallback_font();
    let second = fonts::fallback_font();

    // Assert
    assert_eq!(first, second, "fallback font should be deterministic");
}

#[test]
fn fonts_tests_test_nonexistent_font_is_not_available() {
    let result = fonts::is_font_available("Definitely Not A Real Font Name 12345");
    assert!(!result, "nonexistent font should not be available");
}
