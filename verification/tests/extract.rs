use cognito_user_manager::extract::{request_is_https, resolve_secure, AdminSession};
use cognito_user_manager::session::Session;

#[test]
fn plain_http_is_not_treated_as_secure() {
    assert!(!request_is_https(None, None, None));
}

#[test]
fn a_terminating_proxy_marks_the_request_secure() {
    assert!(request_is_https(Some("https"), None, None));
    assert!(request_is_https(Some("https, http"), None, None));
    assert!(!request_is_https(Some("http"), None, None));
    assert!(request_is_https(None, Some("for=203.0.113.1;proto=https"), None));
}

#[test]
fn the_setting_overrides_the_guess() {
    assert!(resolve_secure(Some(true), None, None, None));
    assert!(!resolve_secure(Some(false), Some("https"), None, None));
    assert!(!resolve_secure(None, None, None, None));
}

#[test]
fn an_absolute_https_uri_counts() {
    assert!(request_is_https(None, None, Some("https")));
}

#[test]
fn the_first_proxy_decides_in_any_case() {
    assert!(request_is_https(Some(" HTTPS ,http"), None, Some("http")));
    assert!(!request_is_https(Some("http"), Some("proto=https"), Some("https")));
    assert!(request_is_https(None, Some("For=x;Proto=HTTPS"), None));
}

fn session(is_admin: bool) -> Session {
    Session {
        username: "alice".into(),
        sub: "sub-1".into(),
        email: None,
        groups: vec![],
        is_admin,
        access_token: "at".into(),
    }
}

#[test]
fn only_admins_pass_the_admin_guard() {
    assert!(AdminSession::require_admin(session(true)).is_ok());
    assert_eq!(AdminSession::require_admin(session(false)).err().map(|e| e.status), Some(403));
}
