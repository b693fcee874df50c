use hmac::Mac;
use base64::Engine;
use cognito_user_manager::config::Config;
use cognito_user_manager::jwks::{accept_identity, load_keys, IdClaims, Jwk, JwksConfig, KeyCache, KeyLookup};
use cognito_user_manager::session::{
    after_refresh, cookie_attributes, decode_unverified, refreshed, secret_hash_candidates, token_cookies, token_max_age, LoadStep,
    RefreshAttempts, Session, SessionCookies, Tokens,
    ACCESS_COOKIE, ID_COOKIE, REFRESH_COOKIE,
};
use cognito_user_manager::state::secret_hash;

fn token(payload: &str) -> String {
    let body = base64::engine::general_purpose::URL_SAFE_NO_PAD.encode(payload);
    format!("header.{body}.signature")
}

#[test]
fn an_unverified_payload_is_read_back() {
    let claims = decode_unverified(&token(r#"{"sub":"s-1","cognito:username":"alice","exp":5}"#)).expect("object");
    assert!(claims.contains(&("sub".to_string(), Some("s-1".to_string()))));
    assert!(claims.contains(&("exp".to_string(), None)));
    assert!(decode_unverified("no-dots").is_none());
    assert!(decode_unverified("a.!!!.c").is_none());
}

#[test]
fn refresh_tries_the_username_then_the_sub() {
    assert_eq!(secret_hash_candidates(false, None), vec![String::new()]);
    assert_eq!(secret_hash_candidates(true, None), vec![String::new()]);
    let t = token(r#"{"sub":"s-1","cognito:username":"alice"}"#);
    assert_eq!(secret_hash_candidates(true, Some(&t)), vec!["alice".to_string(), "s-1".to_string()]);
    let same = token(r#"{"sub":"alice","cognito:username":"alice"}"#);
    assert_eq!(secret_hash_candidates(true, Some(&same)), vec!["alice".to_string()]);
}

#[test]
fn sign_in_keeps_all_three_tokens() {
    let tokens = Tokens {
        id_token: Some("id-token".into()),
        access_token: Some("access-token".into()),
        refresh_token: Some("refresh-token".into()),
        expires_in: 3600,
    };
    let cookies: Vec<(&str, String, i64)> =
        token_cookies(&tokens).into_iter().map(|c| (c.name, c.value, c.max_age_secs)).collect();
    assert_eq!(
        cookies,
        vec![
            (ID_COOKIE, "id-token".to_string(), 3600),
            (ACCESS_COOKIE, "access-token".to_string(), 3600),
            (REFRESH_COOKIE, "refresh-token".to_string(), 30 * 86400),
        ]
    );
    assert_eq!(token_max_age(5), 60);
    let again = refreshed(10, Some("i".into()), None, "rt");
    let names: Vec<&str> = token_cookies(&again).into_iter().map(|c| c.name).collect();
    assert_eq!(names, vec![ID_COOKIE, REFRESH_COOKIE]);
}

fn config(secret: Option<&str>) -> Config {
    Config {
        region: "ap-northeast-1".into(),
        user_pool_id: "ap-northeast-1_test".into(),
        client_id: "client".into(),
        client_secret: secret.map(str::to_string),
        admin_group: "admin".into(),
        bind: "127.0.0.1:3000".into(),
        secure_cookies: None,
    }
}

#[test]
fn the_secret_hash_is_the_keyed_digest_of_user_and_client() {
    let mut mac = <hmac::Hmac<sha2::Sha256> as Mac>::new_from_slice(b"k").unwrap();
    mac.update(b"aliceclient");
    let expected = base64::engine::general_purpose::STANDARD.encode(mac.finalize().into_bytes());
    assert_eq!(secret_hash(&config(Some("k")), "alice"), Some(expected));
    assert_eq!(secret_hash(&config(None), "alice"), None);
}

fn claims(token_use: &str, username: Option<&str>) -> IdClaims {
    IdClaims {
        sub: "s-1".into(),
        username: username.map(str::to_string),
        groups: vec!["admin".into(), "ops".into()],
        email: Some("a@example.com".into()),
        token_use: token_use.into(),
    }
}

#[test]
fn only_an_identity_token_makes_a_session() {
    assert!(accept_identity(claims("access", Some("alice"))).is_err());
    let c = accept_identity(claims("id", Some("alice"))).ok().unwrap();
    let s = Session::from_claims(c, "admin", "at");
    assert_eq!(s.username, "alice");
    assert!(s.is_admin);
    assert!(s.is_self("s-1") && s.is_self("alice") && !s.is_self("bob"));
    let s = Session::from_claims(claims("id", None), "root", "at");
    assert_eq!(s.username, "s-1");
    assert!(!s.is_admin);
}

#[test]
fn both_issuer_hosts_name_the_pool() {
    let c = JwksConfig::new("ap-northeast-1", "ap-northeast-1_test", "client");
    assert_eq!(c.url, "https://cognito-idp.ap-northeast-1.amazonaws.com/ap-northeast-1_test/.well-known/jwks.json");
    assert_eq!(c.issuers[0], "https://cognito-idp.ap-northeast-1.amazonaws.com/ap-northeast-1_test");
    assert_eq!(c.issuers[1], "https://issuer-cognito-idp.ap-northeast-1.amazonaws.com/ap-northeast-1_test");
}

#[test]
fn a_key_set_keeps_the_newest_usable_key_per_kid() {
    let jwks = vec![
        Jwk { kid: "a".into(), n: "AQAB".into(), e: "AQAB".into() },
        Jwk { kid: "b".into(), n: "not base64!".into(), e: "AQAB".into() },
        Jwk { kid: "a".into(), n: "AQAC".into(), e: "AQAB".into() },
    ];
    let cache = load_keys(jwks, 100);
    assert_eq!(cache.fetched_at, 100);
    let kids: Vec<&str> = cache.keys.iter().map(|(k, _)| k.as_str()).collect();
    assert_eq!(kids, vec!["a"]);
    let cache = Some(cache);
    assert!(matches!(KeyCache::lookup(&cache, "a", 150), KeyLookup::Cached(0)));
    assert!(matches!(KeyCache::lookup(&cache, "b", 150), KeyLookup::Unknown));
    assert!(matches!(KeyCache::lookup(&cache, "b", 200), KeyLookup::Fetch));
    assert!(matches!(KeyCache::lookup(&cache, "a", 100 + 3600), KeyLookup::Fetch));
    assert!(matches!(KeyCache::<u8>::lookup(&None, "a", 0), KeyLookup::Fetch));
}

#[test]
fn entries_resolve_to_the_last_usable_one() {
    let cache = KeyCache::from_entries(
        vec![("a".to_string(), Some(1u8)), ("a".to_string(), Some(2)), ("a".to_string(), None), ("b".to_string(), None)],
        7,
    );
    let found: Vec<(String, u8)> = cache.keys.clone();
    assert_eq!(found, vec![("a".to_string(), 2)]);
}

#[test]
fn a_refresh_tries_each_candidate_once() {
    let t = token(r#"{"sub":"s-1","cognito:username":"alice"}"#);
    let secret = config(Some("k"));
    let mut attempts = RefreshAttempts::new(true, Some(&t));
    let first = attempts.next_request(&secret, "rt").expect("first");
    assert_eq!(first[0], ("REFRESH_TOKEN".to_string(), "rt".to_string()));
    assert_eq!(first[1].1, secret_hash(&secret, "alice").unwrap());
    let second = attempts.next_request(&secret, "rt").expect("second");
    assert_eq!(second[1].1, secret_hash(&secret, "s-1").unwrap());
    assert!(attempts.next_request(&secret, "rt").is_none());

    let plain = config(None);
    let mut once = RefreshAttempts::new(false, None);
    assert_eq!(once.next_request(&plain, "rt"), Some(vec![("REFRESH_TOKEN".to_string(), "rt".to_string())]));
    assert!(once.next_request(&plain, "rt").is_none());
}

#[test]
fn a_session_is_read_then_refreshed_then_given_up() {
    let jar = |id: Option<&str>, at: Option<&str>, rt: Option<&str>| SessionCookies {
        id_token: id.map(str::to_string),
        access_token: at.map(str::to_string),
        refresh_token: rt.map(str::to_string),
    };
    assert!(matches!(jar(Some("i"), Some("a"), None).start(), LoadStep::Verify { ref id_token, .. } if id_token == "i"));
    assert!(matches!(jar(Some("i"), None, Some("r")).start(), LoadStep::Refresh { ref refresh_token } if refresh_token == "r"));
    assert!(matches!(jar(None, None, None).start(), LoadStep::NoSession { clear_cookies: false }));
    assert!(matches!(jar(Some("i"), Some("a"), Some("r")).after_rejection(), LoadStep::Refresh { .. }));
    assert!(matches!(after_refresh(None), LoadStep::NoSession { clear_cookies: true }));
    let fresh = refreshed(3600, Some("i2".into()), Some("a2".into()), "r");
    assert!(matches!(after_refresh(Some(&fresh)), LoadStep::Verify { ref access_token, .. } if access_token == "a2"));
    let partial = refreshed(3600, None, Some("a2".into()), "r");
    assert!(matches!(after_refresh(Some(&partial)), LoadStep::NoSession { clear_cookies: false }));
}

#[test]
fn session_cookies_are_http_only_lax_and_site_wide() {
    let plain = cookie_attributes(false);
    assert!(plain.http_only && plain.same_site_lax && !plain.secure);
    assert_eq!(plain.path, "/");
    assert!(cookie_attributes(true).secure);
}
