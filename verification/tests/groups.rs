use cognito_user_manager::aws::Paging;
use cognito_user_manager::error::Failure;
use cognito_user_manager::groups::{arrange, failed, looked_up, names, not_found, require, to_info, GroupRecord};

fn record(name: Option<&str>) -> GroupRecord {
    GroupRecord {
        name: name.map(str::to_string),
        description: Some("d".into()),
        precedence: Some(1),
        role_arn: None,
        created_at: None,
        updated_at: None,
    }
}

#[test]
fn groups_are_listed_by_name_and_unnamed_ones_dropped() {
    let groups = arrange(vec![record(Some("viewers")), record(None), record(Some("Admins")), record(Some("admin"))]);
    assert_eq!(names(&groups), vec!["Admins", "admin", "viewers"]);
}

#[test]
fn a_record_without_a_name_is_no_group() {
    assert!(to_info(record(None)).is_none());
    let g = to_info(record(Some("ops"))).unwrap();
    assert_eq!(g.name, "ops");
    assert_eq!(g.precedence, Some(1));
}

#[test]
fn a_missing_group_is_named_as_such() {
    let missing = Failure { code: Some("ResourceNotFoundException".into()), message: None };
    assert_eq!(failed(&missing).status, 404);
    assert!(matches!(looked_up(Err(missing)), Ok(None)));
    let denied = Failure { code: Some("AccessDeniedException".into()), message: None };
    assert_eq!(failed(&denied).status, 403);
    assert!(looked_up(Err(denied)).is_err());
    assert_eq!(not_found().status, 404);
    assert!(require(None).is_err());
    assert!(matches!(looked_up(Ok(Some(record(Some("a"))))), Ok(Some(g)) if g.name == "a"));
}

#[test]
fn every_page_is_followed_to_the_end() {
    let mut paging = Paging::new();
    assert_eq!(paging.absorb(vec![1, 2], Some("t1".into())), Some("t1".to_string()));
    assert_eq!(paging.absorb(vec![], Some("t2".into())), Some("t2".to_string()));
    assert_eq!(paging.absorb(vec![3], None), None);
    assert_eq!(paging.finish(), vec![1, 2, 3]);
}
