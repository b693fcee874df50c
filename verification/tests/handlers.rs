use cognito_user_manager::attributes::Changes;
use cognito_user_manager::error::Text;
use cognito_user_manager::handlers::account::{
    change_password_input, code_sent, passkey_input, plan_update, profile_updated, send_code_input, totp_input,
    totp_label, totp_setup, totp_verified, verify_input, PasswordRequest, SendCodeRequest, TotpRequest,
    VerifyRequest,
};
use cognito_user_manager::handlers::admin::{
    attributes_updated, deny_self, disclosed, enabled_change, group_changes, password_set, search,
    set_password_input, temporary_password, ListQuery, PasswordRequest as SetPassword,
};
use cognito_user_manager::handlers::groups::{create_input, delete_allowed, removal_allowed, CreateRequest};
use cognito_user_manager::handlers::meta::{pool_response, public_info, SessionInfo};
use cognito_user_manager::handlers::username;
use cognito_user_manager::password::Policy;
use cognito_user_manager::schema::{PoolDescription, PoolInfo, SchemaAttribute};
use cognito_user_manager::session::Session;

fn key(text: &Text) -> String {
    match text {
        Text::Catalog { key, .. } => key.clone(),
        Text::Verbatim(s) => s.clone(),
    }
}

fn args(text: &Text) -> Vec<(String, String)> {
    match text {
        Text::Catalog { args, .. } => args.clone(),
        Text::Verbatim(_) => vec![],
    }
}

fn session() -> Session {
    Session {
        username: "alice".into(),
        sub: "sub-1".into(),
        email: Some("alice@example.com".into()),
        groups: vec!["admin".into()],
        is_admin: true,
        access_token: "at".into(),
    }
}

fn pool(password_sign_in: bool) -> PoolInfo {
    let factors = if password_sign_in { vec![] } else { vec!["WEB_AUTHN".to_string()] };
    PoolInfo::from_description(
        "pool-1".into(),
        PoolDescription {
            name: None,
            attributes: vec![SchemaAttribute {
                name: Some("email".into()),
                data_type: Some("String".into()),
                mutable: Some(true),
                required: Some(true),
                developer_only: None,
                min_length: None,
                max_length: None,
                min_value: None,
                max_value: None,
            }],
            username_attributes: vec![],
            mfa_configuration: Some("OPTIONAL".into()),
            password_policy: Some(Policy::from_parts(Some(12), true, true, true, false)),
            first_factors: factors,
        },
        true,
    )
}

#[test]
fn a_blank_username_is_refused() {
    assert_eq!(username("  bob ").ok(), Some("bob".to_string()));
    let e = username("   ").err().unwrap();
    assert_eq!(e.status, 400);
    assert_eq!(key(&e.text), "error_username_required");
}

#[test]
fn a_password_change_needs_matching_passwords() {
    let req = |c: &str, n: &str, k: &str| PasswordRequest {
        current_password: c.into(),
        new_password: n.into(),
        confirm_password: k.into(),
    };
    assert!(change_password_input(&req("old", "new", "new")).is_ok());
    assert_eq!(key(&change_password_input(&req("", "new", "new")).err().unwrap().text), "error_password_required");
    assert_eq!(key(&change_password_input(&req("old", "new", "neu")).err().unwrap().text), "error_password_mismatch");
}

#[test]
fn verification_needs_an_attribute_and_a_code() {
    assert_eq!(send_code_input(&SendCodeRequest { attribute: " email ".into() }).ok(), Some("email".into()));
    assert!(send_code_input(&SendCodeRequest { attribute: " ".into() }).is_err());
    let ok = VerifyRequest { attribute: "email".into(), code: " 123 ".into() };
    assert_eq!(verify_input(&ok).ok(), Some(("email".to_string(), "123".to_string())));
    assert!(verify_input(&VerifyRequest { attribute: "email".into(), code: "".into() }).is_err());
    let sent = code_sent(Some("a***@example.com"));
    assert_eq!(key(&sent), "msg_code_sent");
    assert_eq!(args(&sent), vec![("destination".to_string(), "a***@example.com".to_string())]);
    assert_eq!(key(&code_sent(None)), "msg_code_sent_generic");
}

#[test]
fn the_profile_reply_names_what_awaits_a_code() {
    let changes = |w: usize, d: usize| Changes {
        attributes: (0..w)
            .map(|i| cognito_user_manager::attributes::Attribute { name: format!("a{i}"), value: "v".into() })
            .collect(),
        to_delete: (0..d).map(|i| format!("d{i}")).collect(),
    };
    assert_eq!(key(&profile_updated(&plan_update(&changes(0, 0)), &vec![])), "msg_no_changes");
    assert_eq!(key(&profile_updated(&plan_update(&changes(0, 1)), &vec![])), "msg_profile_updated");
    assert_eq!(key(&profile_updated(&plan_update(&changes(1, 0)), &vec![])), "msg_profile_updated");
    let pending = profile_updated(&plan_update(&changes(1, 0)), &vec!["email".into(), "phone_number".into()]);
    assert_eq!(key(&pending), "msg_profile_updated_pending");
    assert_eq!(args(&pending), vec![("attributes".to_string(), "email / phone_number".to_string())]);
    assert_eq!(key(&attributes_updated(&plan_update(&changes(0, 0)))), "msg_no_changes");
    assert_eq!(key(&attributes_updated(&plan_update(&changes(2, 1)))), "msg_attributes_updated");
}

#[test]
fn the_authenticator_label_falls_back() {
    let p = pool(true);
    assert_eq!(totp_label(&p, &session()), ("pool-1".to_string(), "alice@example.com".to_string()));
    let mut s = session();
    s.email = None;
    assert_eq!(totp_label(&p, &s).1, "alice");
    let setup = totp_setup(Some("ABC"), &p, &session()).ok().unwrap();
    assert_eq!(setup.otpauth_uri, "otpauth://totp/pool-1:alice%40example.com?secret=ABC&issuer=pool-1");
    assert_eq!(totp_setup(None, &p, &session()).err().map(|e| e.status), Some(500));
}

#[test]
fn a_totp_code_is_required_and_checked() {
    let req = TotpRequest { code: " 123456 ".into(), device_name: Some("  ".into()) };
    assert_eq!(totp_input(&req).ok(), Some(("123456".to_string(), None)));
    let named = TotpRequest { code: "1".into(), device_name: Some(" Phone ".into()) };
    assert_eq!(totp_input(&named).ok(), Some(("1".to_string(), Some("Phone".to_string()))));
    assert!(totp_input(&TotpRequest { code: " ".into(), device_name: None }).is_err());
    assert!(totp_verified(Some("SUCCESS")).is_ok());
    assert_eq!(key(&totp_verified(Some("ERROR")).err().unwrap().text), "error_code_mismatch");
    assert!(totp_verified(None).is_err());
    assert!(passkey_input(true).is_ok());
    assert!(passkey_input(false).is_err());
}

#[test]
fn an_admin_cannot_lock_themselves_out() {
    let s = session();
    assert!(deny_self(&s, "alice", "error_self_delete").is_err());
    assert!(deny_self(&s, "sub-1", "error_self_delete").is_err());
    assert!(deny_self(&s, "bob", "error_self_delete").is_ok());
    assert!(enabled_change(&s, "alice", true).is_ok());
    assert_eq!(key(&enabled_change(&s, "alice", false).err().unwrap().text), "error_self_disable");
    assert_eq!(key(&enabled_change(&s, "bob", false).ok().unwrap()), "msg_user_disabled");
}

#[test]
fn group_changes_join_and_leave_the_difference() {
    let s = session();
    let current = vec!["admin".to_string(), "ops".to_string()];
    let requested = vec!["ops".to_string(), "dev".to_string()];
    let (join, leave) = group_changes(&s, "bob", &current, &requested, "admin").ok().unwrap();
    assert_eq!(join, vec!["dev".to_string()]);
    assert_eq!(leave, vec!["admin".to_string()]);
    let e = group_changes(&s, "alice", &current, &requested, "admin").err().unwrap();
    assert_eq!(key(&e.text), "error_self_admin_group");
    assert_eq!(args(&e.text), vec![("group".to_string(), "admin".to_string())]);
    assert!(group_changes(&s, "alice", &current, &vec!["admin".to_string()], "admin").is_ok());
}

#[test]
fn a_temporary_password_is_filled_in_only_where_it_can_be_used() {
    let typed = temporary_password("  Given-1 ", &pool(true)).ok().unwrap();
    assert_eq!(typed.sent.as_deref(), Some("Given-1"));
    assert!(typed.generated.is_none());
    let made = temporary_password(" ", &pool(true)).ok().unwrap();
    let generated = made.generated.clone().expect("made up");
    assert_eq!(made.sent, made.generated);
    assert_eq!(generated.chars().count(), 20);
    let passwordless = temporary_password("", &pool(false)).ok().unwrap();
    assert!(passwordless.sent.is_none() && passwordless.generated.is_none());
    assert_eq!(disclosed(true, Some("x".into())), Some("x".to_string()));
    assert_eq!(disclosed(false, Some("x".into())), None);
}

#[test]
fn password_setting_messages() {
    assert!(set_password_input(&SetPassword { password: String::new(), permanent: true }).is_err());
    assert!(set_password_input(&SetPassword { password: "x".into(), permanent: false }).is_ok());
    assert_eq!(key(&password_set(true)), "msg_password_set");
    assert_eq!(key(&password_set(false)), "msg_temporary_password_set");
}

#[test]
fn group_administration_guards() {
    let (name, description) = create_input(&CreateRequest {
        name: "  ops ".into(),
        description: Some("  ".into()),
        precedence: Some(3),
    })
    .ok()
    .unwrap();
    assert_eq!(name, "ops");
    assert!(description.is_none());
    assert!(create_input(&CreateRequest { name: " ".into(), description: None, precedence: None }).is_err());
    let e = delete_allowed("admin", "admin").err().unwrap();
    assert_eq!(key(&e.text), "error_delete_admin_group");
    assert!(delete_allowed("ops", "admin").is_ok());
    assert!(removal_allowed(&session(), "admin", "admin", "alice").is_err());
    assert!(removal_allowed(&session(), "admin", "admin", "bob").is_ok());
    assert!(removal_allowed(&session(), "ops", "admin", "alice").is_ok());
}

#[test]
fn non_admins_see_only_their_own_subset() {
    let p = pool(true);
    let mine = pool_response(&p, false, vec!["ops".into()], "admin");
    assert!(mine.admin_visible.is_empty() && mine.editable.is_empty() && mine.groups.is_empty());
    assert!(mine.admin_group.is_none() && mine.search_fields.is_empty());
    assert_eq!(mine.self_editable.len(), 1);
    assert_eq!(mine.mfa_configuration, "OPTIONAL");
    let admin = pool_response(&p, true, vec!["ops".into()], "admin");
    assert_eq!(admin.groups, vec!["ops".to_string()]);
    assert_eq!(admin.admin_group.as_deref(), Some("admin"));
    assert_eq!(admin.search_fields[0], "email");
    let public = public_info(Some(&p), "1.2.3");
    assert!(public.passkey_sign_in == p.passkeys_usable && public.pool_name.is_none());
    let down = public_info(None, "1.2.3");
    assert!(!down.passkey_sign_in);
    assert_eq!(down.version, "1.2.3");
    let info = SessionInfo::of(session());
    assert!(info.is_admin && info.username == "alice");
}

#[test]
fn a_search_runs_on_an_allowed_field_only() {
    let query = |q: &str, field: Option<&str>| ListQuery { q: q.into(), field: field.map(str::to_string), token: None };
    assert_eq!(search(&query("ta", Some("phone_number"))), ("phone_number", Some(r#"phone_number ^= "ta""#.to_string())));
    assert_eq!(search(&query("ta", Some("custom:team"))), ("email", Some(r#"email ^= "ta""#.to_string())));
    assert_eq!(search(&query("  ", None)), ("email", None));
}
