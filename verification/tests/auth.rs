use hmac::Mac;
use base64::Engine;
use cognito_user_manager::config::Config;
use cognito_user_manager::handlers::auth::{
    login_input, passkey_offered, pending_challenge, resolved_username, responses_for, sign_in_parameters,
    ChallengeRequest, ChallengeView, LoginRequest, StoredChallenge,
};

fn config(secret: Option<&str>) -> Config {
    Config {
        region: "ap-northeast-1".into(),
        user_pool_id: "ap-northeast-1_test".into(),
        client_id: "test-client-id".into(),
        client_secret: secret.map(str::to_string),
        admin_group: "admin".into(),
        bind: "127.0.0.1:3000".into(),
        secure_cookies: None,
    }
}

fn challenge_of(name: &str) -> StoredChallenge {
    StoredChallenge {
        name: name.to_string(),
        session: "cognito-session".to_string(),
        username: "alice".to_string(),
        required_attributes: Vec::new(),
        mfa_options: Vec::new(),
        destination: None,
        credential_request_options: Some(r#"{"challenge":"ZXhhbXBsZQ"}"#.to_string()),
    }
}

fn parameters(pairs: &[(&str, &str)]) -> Vec<(String, String)> {
    pairs.iter().map(|(k, v)| (k.to_string(), v.to_string())).collect()
}

fn get<'a>(entries: &'a [(String, String)], key: &str) -> Option<&'a str> {
    entries.iter().rev().find(|(k, _)| k == key).map(|(_, v)| v.as_str())
}

#[test]
fn a_passkey_answers_with_the_credential_it_signed() {
    let challenge = challenge_of("WEB_AUTHN");
    let body = ChallengeRequest {
        credential: Some(r#"{"id":"ZXhhbXBsZQ"}"#.to_string()),
        ..ChallengeRequest::default()
    };
    let responses = responses_for(&config(None), &challenge, &body).ok().expect("valid");
    assert_eq!(get(&responses, "CREDENTIAL"), Some(r#"{"id":"ZXhhbXBsZQ"}"#));
    assert_eq!(get(&responses, "USERNAME"), Some("alice"));
}

#[test]
fn the_account_cognito_resolved_wins_over_the_alias_typed() {
    assert_eq!(
        resolved_username(&parameters(&[("USER_ID_FOR_SRP", "alice")]), "a@example.com"),
        "alice"
    );
    assert_eq!(resolved_username(&parameters(&[("USERNAME", "alice")]), "a@example.com"), "alice");
    assert_eq!(
        resolved_username(
            &parameters(&[("USER_ID_FOR_SRP", "alice"), ("USERNAME", "a@example.com")]),
            "a@example.com"
        ),
        "alice"
    );
    assert_eq!(resolved_username(&parameters(&[]), "a@example.com"), "a@example.com");
}

#[test]
fn a_passkey_step_without_a_credential_is_refused() {
    let challenge = challenge_of("WEB_AUTHN");
    assert!(responses_for(&config(None), &challenge, &ChallengeRequest::default()).is_err());
}

#[test]
fn the_view_keeps_the_passkey_options() {
    let challenge = challenge_of("WEB_AUTHN");
    let view = ChallengeView::from(&challenge);
    assert_eq!(view.credential_request_options.as_deref(), Some(r#"{"challenge":"ZXhhbXBsZQ"}"#));
    assert_eq!(view.name, "WEB_AUTHN");
}

#[test]
fn a_new_password_has_to_be_typed_twice_alike() {
    let challenge = challenge_of("NEW_PASSWORD_REQUIRED");
    let mismatch = ChallengeRequest {
        new_password: Some("Secret-1".into()),
        confirm_password: Some("Secret-2".into()),
        ..ChallengeRequest::default()
    };
    assert_eq!(responses_for(&config(None), &challenge, &mismatch).err().map(|e| e.status), Some(400));

    let mut with_attrs = challenge_of("NEW_PASSWORD_REQUIRED");
    with_attrs.required_attributes = vec!["name".into(), "email".into()];
    let body = ChallengeRequest {
        new_password: Some("Secret-1".into()),
        confirm_password: Some("Secret-1".into()),
        user_attributes: vec![("name".into(), "  Taro ".into()), ("email".into(), "   ".into())],
        ..ChallengeRequest::default()
    };
    let responses = responses_for(&config(None), &with_attrs, &body).ok().expect("valid");
    assert_eq!(get(&responses, "NEW_PASSWORD"), Some("Secret-1"));
    assert_eq!(get(&responses, "userAttributes.name"), Some("Taro"));
    assert_eq!(get(&responses, "userAttributes.email"), None);
}

#[test]
fn codes_are_sent_trimmed_under_their_challenge_key() {
    let body = ChallengeRequest { code: Some(" 123456 ".into()), ..ChallengeRequest::default() };
    for (name, key) in [("SMS_MFA", "SMS_MFA_CODE"), ("EMAIL_OTP", "EMAIL_OTP_CODE"), ("SOFTWARE_TOKEN_MFA", "SOFTWARE_TOKEN_MFA_CODE")] {
        let responses = responses_for(&config(None), &challenge_of(name), &body).ok().expect("valid");
        assert_eq!(get(&responses, key), Some("123456"));
    }
    assert!(responses_for(&config(None), &challenge_of("CUSTOM_CHALLENGE"), &body).is_err());
}

#[test]
fn a_client_secret_adds_the_hash() {
    let responses = responses_for(&config(Some("s3cret")), &challenge_of("SMS_MFA"), &ChallengeRequest::default())
        .ok()
        .expect("valid");
    let mut mac = <hmac::Hmac<sha2::Sha256> as Mac>::new_from_slice(b"s3cret").unwrap();
    mac.update(b"alicetest-client-id");
    let expected = base64::engine::general_purpose::STANDARD.encode(mac.finalize().into_bytes());
    assert_eq!(get(&responses, "SECRET_HASH"), Some(expected.as_str()));
    assert_eq!(get(&responses_for(&config(None), &challenge_of("SMS_MFA"), &ChallengeRequest::default()).ok().unwrap(), "SECRET_HASH"), None);
}

#[test]
fn a_sign_in_needs_a_username_and_a_password() {
    let ok = LoginRequest { username: "  alice ".into(), password: "pw".into() };
    assert_eq!(login_input(&ok).ok(), Some("alice".to_string()));
    let blank = LoginRequest { username: "   ".into(), password: "pw".into() };
    assert!(login_input(&blank).is_err());
    let no_password = LoginRequest { username: "alice".into(), password: String::new() };
    assert!(login_input(&no_password).is_err());
}

#[test]
fn only_an_offered_passkey_goes_on() {
    assert!(passkey_offered(false, Some("WEB_AUTHN")).is_ok());
    assert!(passkey_offered(true, None).is_ok());
    assert!(passkey_offered(false, Some("SELECT_CHALLENGE")).is_err());
    assert!(passkey_offered(false, None).is_err());
}

#[test]
fn a_pending_challenge_is_read_from_the_parameters() {
    let params = parameters(&[
        ("USER_ID_FOR_SRP", "alice"),
        ("requiredAttributes", r#"["userAttributes.email","userAttributes.name"]"#),
        ("MFAS_CAN_CHOOSE", r#"["SMS_MFA","SOFTWARE_TOKEN_MFA"]"#),
        ("CODE_DELIVERY_DESTINATION", "+81***1234"),
    ]);
    let c = pending_challenge(Some("NEW_PASSWORD_REQUIRED"), Some("sess"), &params, "a@example.com")
        .ok()
        .expect("supported");
    assert_eq!(c.username, "alice");
    assert_eq!(c.required_attributes, vec!["email".to_string(), "name".to_string()]);
    assert_eq!(c.mfa_options, vec!["SMS_MFA".to_string(), "SOFTWARE_TOKEN_MFA".to_string()]);
    assert_eq!(c.destination.as_deref(), Some("+81***1234"));
    assert!(pending_challenge(Some("CUSTOM_CHALLENGE"), Some("s"), &params, "x").is_err());
    assert!(pending_challenge(None, Some("s"), &params, "x").is_err());
}

#[test]
fn every_sign_in_names_the_user() {
    let plain = sign_in_parameters(&config(None), "alice");
    assert_eq!(plain, vec![("USERNAME".to_string(), "alice".to_string())]);
    let hashed = sign_in_parameters(&config(Some("s3cret")), "alice");
    assert_eq!(hashed.len(), 2);
    assert_eq!(hashed[1].0, "SECRET_HASH");
}
