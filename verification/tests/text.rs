use cognito_user_manager::order::sort_by_key;
use cognito_user_manager::groups::GroupInfo;
use cognito_user_manager::text::{decimal_of, join, parse_i64, str_le, trimmed};

#[test]
fn strings_compare_as_str_does() {
    let words = ["", "a", "B", "ab", "abc", "ä", "z", "Z", "日本", "aa"];
    for x in words {
        for y in words {
            assert_eq!(str_le(x, y), x <= y, "{x:?} <= {y:?}");
        }
    }
}

#[test]
fn joining_and_trimming() {
    assert_eq!(join(&vec!["a".into(), "b".into(), "c".into()], " / "), "a / b / c");
    assert_eq!(join(&vec![], ", "), "");
    assert_eq!(trimmed("\u{3000} x \t"), "x");
    assert_eq!(decimal_of(-120), "-120");
    assert_eq!(decimal_of(i64::MIN), i64::MIN.to_string());
    assert_eq!(parse_i64("-9223372036854775809"), None);
}

#[test]
fn sorting_keeps_equal_names_in_order() {
    let g = |name: &str, d: &str| GroupInfo {
        name: name.into(),
        description: Some(d.into()),
        precedence: None,
        role_arn: None,
        created_at: None,
        updated_at: None,
    };
    let sorted = sort_by_key(vec![g("b", "1"), g("a", "2"), g("b", "3"), g("a", "4")]);
    let seen: Vec<(String, String)> = sorted.into_iter().map(|x| (x.name, x.description.unwrap())).collect();
    assert_eq!(
        seen,
        vec![("a".into(), "2".into()), ("a".into(), "4".into()), ("b".into(), "1".into()), ("b".into(), "3".into())]
    );
}
