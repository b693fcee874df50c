use cognito_user_manager::attributes::{diff, to_values, Changes, NumberCheck, Patch, Values};
use cognito_user_manager::schema::{AttributeField, DataType};

fn field(name: &str, data_type: DataType, required: bool) -> AttributeField {
    AttributeField {
        name: name.to_string(),
        data_type,
        mutable: true,
        required,
        is_custom: name.starts_with("custom:"),
        developer_only: false,
        min_length: None,
        max_length: None,
        min_value: None,
        max_value: None,
    }
}

fn fields() -> Vec<AttributeField> {
    let mut age = field("custom:age", DataType::Number, false);
    age.min_value = Some(0);
    age.max_value = Some(150);
    vec![
        field("email", DataType::String, true),
        field("nickname", DataType::String, false),
        field("email_verified", DataType::Boolean, false),
        age,
    ]
}

fn patch(pairs: &[(&str, Option<&str>)]) -> Patch {
    pairs.iter().map(|(k, v)| (k.to_string(), v.map(str::to_string))).collect()
}

fn values(pairs: &[(&str, &str)]) -> Values {
    pairs.iter().map(|(k, v)| (k.to_string(), v.to_string())).collect()
}

/// How each field's submitted value compares as a number, the floating-point
/// reading the caller does before diffing.
fn checks(patch: &Patch, fields: &[AttributeField]) -> Vec<NumberCheck> {
    fields
        .iter()
        .map(|f| {
            let value = patch
                .iter()
                .find(|(name, _)| *name == f.name)
                .and_then(|(_, v)| v.clone())
                .unwrap_or_default();
            match value.trim().parse::<f64>() {
                Ok(x) => NumberCheck::Compared {
                    below_min: f.min_value.is_some_and(|m| x < m as f64),
                    above_max: f.max_value.is_some_and(|m| x > m as f64),
                },
                Err(_) => NumberCheck::NotANumber,
            }
        })
        .collect()
}

fn run(patch: &Patch, fields: &[AttributeField], current: &Values) -> Result<Changes, u16> {
    diff(patch, fields, current, &checks(patch, fields)).map_err(|e| e.status)
}

fn written(changes: &Changes) -> Vec<(String, String)> {
    changes.attributes.iter().map(|a| (a.name.clone(), a.value.clone())).collect()
}

#[test]
fn writes_only_changed_attributes() {
    let current = values(&[("email", "a@example.com"), ("nickname", "taro")]);
    let changes = run(&patch(&[("email", Some("a@example.com")), ("nickname", Some("jiro"))]), &fields(), &current)
        .expect("diff");
    assert_eq!(written(&changes), vec![("nickname".into(), "jiro".into())]);
}

#[test]
fn null_deletes_an_attribute_that_has_a_value() {
    let current = values(&[("email", "a@example.com"), ("nickname", "taro")]);
    let changes = run(&patch(&[("nickname", None)]), &fields(), &current).expect("diff");
    assert_eq!(changes.to_delete, vec!["nickname".to_string()]);
    assert!(changes.attributes.is_empty());
}

#[test]
fn null_on_an_unset_attribute_does_nothing() {
    let changes = run(&patch(&[("nickname", None)]), &fields(), &Values::new()).expect("diff");
    assert!(changes.is_empty());
}

#[test]
fn a_required_attribute_cannot_be_cleared() {
    let current = values(&[("email", "a@example.com")]);
    let status = run(&patch(&[("email", None)]), &fields(), &current).err().expect("required attribute");
    assert_eq!(status, 400);
}

#[test]
fn booleans_round_trip_as_strings() {
    let current = values(&[("email_verified", "false")]);
    let changes = run(&patch(&[("email_verified", Some("true"))]), &fields(), &current).expect("diff");
    assert_eq!(written(&changes), vec![("email_verified".into(), "true".into())]);
}

#[test]
fn numbers_are_range_checked() {
    assert!(run(&patch(&[("custom:age", Some("200"))]), &fields(), &Values::new()).is_err());
    assert!(run(&patch(&[("custom:age", Some("abc"))]), &fields(), &Values::new()).is_err());
    let changes = run(&patch(&[("custom:age", Some("42"))]), &fields(), &Values::new()).expect("diff");
    assert_eq!(written(&changes), vec![("custom:age".into(), "42".into())]);
}

#[test]
fn attributes_outside_the_allowed_set_are_ignored() {
    let allowed = vec![field("nickname", DataType::String, false)];
    let changes = run(
        &patch(&[("email", Some("evil@example.com")), ("nickname", Some("taro"))]),
        &allowed,
        &Values::new(),
    )
    .expect("diff");
    assert_eq!(written(&changes), vec![("nickname".into(), "taro".into())]);
}

#[test]
fn string_lengths_are_checked_in_characters() {
    let mut name = field("name", DataType::String, false);
    name.min_length = Some(2);
    name.max_length = Some(3);
    let only = vec![name];
    assert!(run(&patch(&[("name", Some("a"))]), &only, &Values::new()).is_err());
    assert!(run(&patch(&[("name", Some("abcd"))]), &only, &Values::new()).is_err());
    // Three characters, nine bytes.
    let changes = run(&patch(&[("name", Some("日本語"))]), &only, &Values::new()).expect("diff");
    assert_eq!(written(&changes), vec![("name".into(), "日本語".into())]);
}

#[test]
fn values_are_written_trimmed() {
    let changes = run(&patch(&[("nickname", Some("  jiro  "))]), &fields(), &Values::new()).expect("diff");
    assert_eq!(written(&changes), vec![("nickname".into(), "jiro".into())]);
}

#[test]
fn a_repeated_attribute_keeps_its_last_value() {
    let values = to_values(vec![
        ("email".to_string(), Some("old@example.com".to_string())),
        ("name".to_string(), None),
        ("email".to_string(), Some("new@example.com".to_string())),
    ]);
    let get = |n: &str| values.iter().find(|(k, _)| k == n).map(|(_, v)| v.clone());
    assert_eq!(values.len(), 2);
    assert_eq!(get("email").as_deref(), Some("new@example.com"));
    assert_eq!(get("name").as_deref(), Some(""));
}
