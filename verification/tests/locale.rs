use cognito_user_manager::locale::{fallback, or_default, resolve};

#[test]
fn resolves_a_language_code_to_a_shipped_locale() {
    assert_eq!(resolve("ja"), Some("ja".to_string()));
    assert_eq!(resolve("ja-JP"), Some("ja".to_string()));
    assert_eq!(resolve("en-US"), Some("en".to_string()));
    assert_eq!(resolve("xx-YY"), None);
    assert_eq!(resolve("   "), None);
    assert_eq!(or_default(Some("xx")), fallback());
    assert_eq!(or_default(None), "en");
}

#[test]
fn codes_are_trimmed_and_folded() {
    assert_eq!(resolve("  JA-jp "), Some("ja".to_string()));
    assert_eq!(or_default(Some("EN")), "en");
}
