use cognito_user_manager::password::Policy;
use cognito_user_manager::schema::{
    arrange_fields, choice_sign_in, offers_passkeys, parse, to_field, DataType, PoolDescription, PoolInfo,
    SchemaAttribute, SchemaCache, SCHEMA_TTL_SECS,
};

fn attribute(name: Option<&str>, data_type: &str) -> SchemaAttribute {
    SchemaAttribute {
        name: name.map(str::to_string),
        data_type: Some(data_type.to_string()),
        mutable: Some(true),
        required: None,
        developer_only: None,
        min_length: None,
        max_length: None,
        min_value: None,
        max_value: None,
    }
}

#[test]
fn limits_parse_as_the_standard_parser_does() {
    assert_eq!(parse("42"), Some(42));
    assert_eq!(parse("-7"), Some(-7));
    assert_eq!(parse("+7"), Some(7));
    assert_eq!(parse("007"), Some(7));
    assert_eq!(parse(""), None);
    assert_eq!(parse("-"), None);
    assert_eq!(parse(" 1"), None);
    assert_eq!(parse("1.5"), None);
    assert_eq!(parse("9223372036854775807"), Some(i64::MAX));
    assert_eq!(parse("-9223372036854775808"), Some(i64::MIN));
    assert_eq!(parse("9223372036854775808"), None);
    assert_eq!(parse("99999999999999999999999"), None);
    for s in ["0", "-0", "123456789", "-2048", "2048"] {
        assert_eq!(parse(s), s.parse::<i64>().ok());
    }
}

#[test]
fn a_custom_attribute_gets_its_prefix() {
    let f = to_field(&attribute(Some("team"), "String")).expect("named");
    assert_eq!(f.name, "custom:team");
    assert!(f.is_custom);
    let f = to_field(&attribute(Some("custom:team"), "Number")).expect("named");
    assert_eq!(f.name, "custom:team");
    assert_eq!(f.data_type, DataType::Number);
    let f = to_field(&attribute(Some("dev:x"), "Boolean")).expect("named");
    assert_eq!(f.name, "dev:x");
    assert!(f.is_custom);
    let f = to_field(&attribute(Some("email"), "String")).expect("named");
    assert_eq!(f.name, "email");
    assert!(!f.is_custom);
    assert!(to_field(&attribute(None, "String")).is_none());
}

#[test]
fn constraints_and_flags_are_read() {
    let mut a = attribute(Some("age"), "Number");
    a.min_value = Some("0".into());
    a.max_value = Some("not a number".into());
    a.required = Some(true);
    a.developer_only = Some(false);
    let f = to_field(&a).expect("named");
    assert_eq!(f.min_value, Some(0));
    assert_eq!(f.max_value, None);
    assert!(f.required && f.mutable && !f.developer_only);
    let f = to_field(&attribute(Some("birthdate"), "DateTime")).unwrap();
    assert_eq!(f.data_type, DataType::DateTime);
    let f = to_field(&attribute(Some("x"), "Strange")).unwrap();
    assert_eq!(f.data_type, DataType::String);
}

#[test]
fn fields_list_standard_ones_first_then_custom_by_name() {
    let attrs = vec![
        attribute(Some("zeta"), "String"),
        attribute(Some("sub"), "String"),
        attribute(Some("name"), "String"),
        attribute(None, "String"),
        attribute(Some("custom:alpha"), "String"),
        attribute(Some("email"), "String"),
        attribute(Some("updated_at"), "Number"),
    ];
    let names: Vec<String> = arrange_fields(&attrs).into_iter().map(|f| f.name).collect();
    assert_eq!(names, vec!["email", "name", "custom:alpha", "custom:zeta"]);
}

fn description(factors: &[&str]) -> PoolDescription {
    PoolDescription {
        name: Some("Staff".into()),
        attributes: vec![attribute(Some("email"), "String")],
        username_attributes: vec!["email".into()],
        mfa_configuration: None,
        password_policy: None,
        first_factors: factors.iter().map(|s| s.to_string()).collect(),
    }
}

#[test]
fn a_pool_is_assembled_from_its_description() {
    let pool = PoolInfo::from_description("pool-1".into(), description(&[]), false);
    assert_eq!(pool.id, "pool-1");
    assert_eq!(pool.name.as_deref(), Some("Staff"));
    assert!(pool.username_is_email);
    assert_eq!(pool.mfa_configuration, "OFF");
    assert_eq!(pool.password_policy.minimum_length, Policy::default().minimum_length);
    assert!(pool.password_sign_in);
    assert!(!pool.passkeys && !pool.passkeys_usable);
    assert_eq!(pool.fields.len(), 1);
}

#[test]
fn passkeys_need_the_pool_and_the_client() {
    let pool = PoolInfo::from_description("p".into(), description(&["WEB_AUTHN"]), true);
    assert!(pool.passkeys && pool.passkeys_usable);
    assert!(!pool.password_sign_in);
    let pool = PoolInfo::from_description("p".into(), description(&["WEB_AUTHN", "PASSWORD"]), false);
    assert!(pool.passkeys && !pool.passkeys_usable && pool.password_sign_in);
    assert!(offers_passkeys(&vec!["WEB_AUTHN".to_string()]));
    assert!(!offers_passkeys(&vec!["PASSWORD".to_string()]));
    assert!(choice_sign_in(&None));
    assert!(choice_sign_in(&Some(vec!["ALLOW_USER_AUTH".to_string()])));
    assert!(!choice_sign_in(&Some(vec!["ALLOW_REFRESH_TOKEN_AUTH".to_string()])));
}

#[test]
fn a_described_pool_is_served_for_five_minutes() {
    let mut cache = SchemaCache::new();
    assert!(cache.cached(0).is_none());
    cache.store(PoolInfo::from_description("p".into(), description(&[]), false), 1000);
    assert_eq!(cache.cached(1000).map(|p| p.id), Some("p".to_string()));
    assert!(cache.cached(1000 + SCHEMA_TTL_SECS - 1).is_some());
    assert!(cache.cached(1000 + SCHEMA_TTL_SECS).is_none());
    // A clock that seems to run back counts as no time passed.
    assert!(cache.cached(10).is_some());
}

#[test]
fn the_screens_get_their_subsets() {
    let mut attrs = vec![attribute(Some("email"), "String"), attribute(Some("email_verified"), "Boolean")];
    let mut locked = attribute(Some("employee"), "String");
    locked.mutable = Some(false);
    attrs.push(locked);
    let mut secret = attribute(Some("dev:internal"), "String");
    secret.developer_only = Some(true);
    attrs.push(secret);
    let mut d = description(&[]);
    d.attributes = attrs;
    let pool = PoolInfo::from_description("p".into(), d, false);
    let names = |v: Vec<cognito_user_manager::schema::AttributeField>| v.into_iter().map(|f| f.name).collect::<Vec<_>>();
    assert_eq!(names(pool.admin_visible()), vec!["email", "email_verified", "custom:employee"]);
    assert_eq!(names(pool.editable()), vec!["email", "email_verified"]);
    assert_eq!(names(pool.self_editable()), vec!["email"]);
}
