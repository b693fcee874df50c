use cognito_user_manager::jwks::{
    checked_claims, claims_from, describe, token_kid, verify_id_token, verify_with, ClaimValue, JwksConfig,
};
use jsonwebtoken::DecodingKey;

fn text(s: &str) -> ClaimValue {
    ClaimValue::Text(s.to_string())
}

fn members(token_use: &str) -> Vec<(String, ClaimValue)> {
    vec![
        ("aud".to_string(), text("client")),
        ("cognito:groups".to_string(), ClaimValue::List(vec![Some("admins".to_string()), Some("ops".to_string())])),
        ("cognito:username".to_string(), text("alice")),
        ("email".to_string(), ClaimValue::Null),
        ("exp".to_string(), ClaimValue::Other),
        ("sub".to_string(), text("1234")),
        ("token_use".to_string(), text(token_use)),
    ]
}

#[test]
fn an_id_token_gives_its_claims() {
    let c = checked_claims(Ok(members("id"))).unwrap();
    assert_eq!(c.sub, "1234");
    assert_eq!(c.username.as_deref(), Some("alice"));
    assert_eq!(c.groups, vec!["admins".to_string(), "ops".to_string()]);
    assert_eq!(c.email, None);
    assert_eq!(c.token_use, "id");
}

#[test]
fn an_access_token_is_refused() {
    assert_eq!(checked_claims(Ok(members("access"))).unwrap_err(), "not an ID token");
}

#[test]
fn a_decoding_error_is_reported_with_its_message() {
    assert_eq!(
        checked_claims(Err("ExpiredSignature".to_string())).unwrap_err(),
        "token verification failed: ExpiredSignature"
    );
}

#[test]
fn missing_groups_read_as_none_and_bad_claims_are_refused() {
    let mut ms = members("id");
    ms.remove(1);
    assert!(claims_from(&ms).unwrap().groups.is_empty());

    let mut ms = members("id");
    ms[1].1 = ClaimValue::List(vec![Some("admins".to_string()), None]);
    assert_eq!(claims_from(&ms).unwrap_err(), "token verification failed: unreadable claims");

    let mut ms = members("id");
    ms.retain(|(k, _)| k != "sub");
    assert!(claims_from(&ms).is_err());

    let mut ms = members("id");
    ms[3].1 = ClaimValue::Other;
    assert!(claims_from(&ms).is_err());
}

#[test]
fn the_kid_comes_from_the_header() {
    // {"alg":"RS256","kid":"abc"} and {"alg":"RS256"}
    assert_eq!(token_kid("eyJhbGciOiJSUzI1NiIsImtpZCI6ImFiYyJ9.e30.c2ln").unwrap(), "abc");
    assert_eq!(token_kid("eyJhbGciOiJSUzI1NiJ9.e30.c2ln").unwrap_err(), "token carries no kid");
    assert!(token_kid("not a token").unwrap_err().starts_with("malformed token: "));
}

#[test]
fn a_token_that_does_not_decode_is_refused() {
    let key = DecodingKey::from_rsa_components("AQAB", "AQAB").unwrap();
    let issuers = ["https://cognito-idp.r.amazonaws.com/p".to_string(), "x".to_string()];
    let err = verify_with(&key, &issuers, "client", "eyJhbGciOiJSUzI1NiJ9.e30.c2ln").unwrap_err();
    assert!(err.starts_with("token verification failed: "));
    let config = JwksConfig::new("r", "p", "client");
    assert!(verify_id_token("a.b", &key, &config).unwrap_err().starts_with("token verification failed: "));
}

#[test]
fn a_rejected_token_is_described_by_its_claims() {
    let token = "e30.eyJhdWQiOiJjbGllbnQiLCJleHAiOjE3MDAwMDAwMDAsImlzcyI6Imh0dHBzOi8veCIsInRva2VuX3VzZSI6ImlkIn0.c2ln";
    assert_eq!(
        describe(token),
        "token iss=\"https://x\" aud=\"client\" token_use=\"id\" exp=1700000000"
    );
    // A JSON array has no claims to show.
    assert_eq!(describe("e30.WzEsMl0.c2ln"), "token iss=- aud=- token_use=- exp=-");
    assert_eq!(describe("e30.e30.c2ln"), "token iss=- aud=- token_use=- exp=-");
    assert_eq!(describe("no-dots"), "payload unreadable");
    assert_eq!(describe("e30.!!!.c2ln"), "payload unreadable");
}
