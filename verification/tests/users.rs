use cognito_user_manager::error::Failure;
use cognito_user_manager::users::{escape, looked_up, page_token, search_field, search_fields, user_filter};

#[test]
fn only_an_allowed_field_reaches_the_filter() {
    let first = search_fields()[0];
    assert_eq!(search_field(Some("phone_number")), "phone_number");
    assert_eq!(search_field(Some("custom:team")), first);
    assert_eq!(search_field(None), first);
}

#[test]
fn a_search_term_cannot_break_out_of_the_quoted_value() {
    assert_eq!(escape(r#"plain"#), "plain");
    assert_eq!(escape(r#"a"b"#), r#"a\"b"#);
    assert_eq!(escape(r#"trailing\"#), r#"trailing\\"#);
    assert_eq!(escape(r#"\" or sub ^= ""#), r#"\\\" or sub ^= \""#);
}

#[test]
fn the_filter_is_a_prefix_match_of_the_trimmed_term() {
    assert_eq!(user_filter("  ta\"ro ", "email"), Some(r#"email ^= "ta\"ro""#.to_string()));
    assert_eq!(user_filter("   ", "email"), None);
}

#[test]
fn an_empty_token_asks_for_the_first_page() {
    assert_eq!(page_token(Some(String::new())), None);
    assert_eq!(page_token(None), None);
    assert_eq!(page_token(Some("abc".to_string())), Some("abc".to_string()));
}

#[test]
fn a_missing_user_is_no_error() {
    let missing = Failure { code: Some("UserNotFoundException".into()), message: None };
    assert!(matches!(looked_up::<u8>(Err(missing)), Ok(None)));
    let other = Failure { code: Some("AccessDeniedException".into()), message: None };
    assert_eq!(looked_up::<u8>(Err(other)).err().map(|e| e.status), Some(403));
    assert!(matches!(looked_up(Ok(7u8)), Ok(Some(7))));
}
