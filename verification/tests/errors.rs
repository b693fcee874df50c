use cognito_user_manager::error::{cognito, cognito_or_missing, is_client_error, known, Failure, Text};

#[test]
fn a_known_code_carries_both_wording_and_a_status() {
    assert_eq!(known("UserNotFoundException"), Some(("error_user_not_found", 404)));
    assert_eq!(known("UnrecognizedClientException"), known("InvalidSignatureException"));
}

#[test]
fn what_the_caller_caused_stays_a_client_error() {
    for code in [
        "NotAuthorizedException",
        "UserNotFoundException",
        "AccessDeniedException",
        "TooManyRequestsException",
        "CodeMismatchException",
        "InvalidPasswordException",
        "UsernameExistsException",
        "GroupExistsException",
        "SoftwareTokenMFANotFoundException",
    ] {
        let (_, status) = known(code).expect("code should have wording");
        assert!(is_client_error(status), "{code} answered {status}");
    }
}

#[test]
fn an_upstream_failure_stays_a_bad_gateway() {
    for code in ["UnrecognizedClientException", "ResourceNotFoundException"] {
        let (_, status) = known(code).expect("code should have wording");
        assert_eq!(status, 502, "{code}");
    }
}

#[test]
fn an_unknown_code_has_no_wording_of_ours() {
    assert!(known("SomeFutureException").is_none());
    assert!(known("").is_none());
}

#[test]
fn an_unknown_failure_passes_the_service_message_on() {
    let e = cognito(Some("SomeFutureException"), Some("the service said so"));
    assert_eq!(e.status, 502);
    assert!(matches!(e.text, Text::Verbatim(ref m) if m == "the service said so"));
    let e = cognito(None, None);
    assert_eq!(e.status, 502);
    assert!(matches!(e.text, Text::Catalog { ref key, .. } if key == "error_unexpected"));
}

#[test]
fn a_missing_resource_names_the_thing_asked_for() {
    let e = cognito_or_missing(Some("ResourceNotFoundException"), None, "error_passkey_not_found");
    assert_eq!(e.status, 404);
    assert!(matches!(e.text, Text::Catalog { ref key, .. } if key == "error_passkey_not_found"));
    let pool = cognito(Some("ResourceNotFoundException"), None);
    assert_eq!(pool.status, 502);
    let f = Failure { code: Some("CodeMismatchException".into()), message: None };
    assert_eq!(f.answer_or_missing("x").status, 400);
}
