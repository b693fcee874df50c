use cognito_user_manager::static_files::{cache_control_for, cache_header, is_content_hashed, wants_html, IMMUTABLE, REVALIDATE};

#[test]
fn hashed_bundles_are_immutable() {
    assert_eq!(cache_control_for("/index.ade1b22c.js"), IMMUTABLE);
    assert_eq!(cache_control_for("/index.ef82c314.css"), IMMUTABLE);
}

#[test]
fn stable_names_revalidate() {
    assert_eq!(cache_control_for("/"), REVALIDATE);
    assert_eq!(cache_control_for("/index.html"), REVALIDATE);
    assert_eq!(cache_control_for("/locales/ja.json"), REVALIDATE);
}

#[test]
fn only_a_hash_shaped_segment_counts() {
    assert_eq!(cache_control_for("/vendor.min.js"), REVALIDATE);
    assert_eq!(cache_control_for("/app.v2.css"), REVALIDATE);
    assert_eq!(cache_control_for("/index.1234567.js"), REVALIDATE);
    assert_eq!(cache_control_for("/app.zzzzzzzz.js"), REVALIDATE);
    assert_eq!(cache_control_for("/app.4F3A2B1C.js"), REVALIDATE);
    assert_eq!(cache_control_for("/4f3a2b1c/index.html"), REVALIDATE);
}

#[test]
fn only_navigations_get_the_shell() {
    assert!(wants_html(Some("text/html,application/xhtml+xml,*/*;q=0.8")));
    assert!(!wants_html(Some("*/*")));
    assert!(!wants_html(None));
}

#[test]
fn a_nested_hashed_bundle_counts() {
    assert!(is_content_hashed("/assets/chunk.0123abcd.js"));
    assert!(!is_content_hashed("/assets/chunk.0123abc.js"));
}

#[test]
fn only_a_success_or_a_revalidation_carries_the_header() {
    assert_eq!(cache_header("/index.4f3a2b1c.js", 200), Some(IMMUTABLE));
    assert_eq!(cache_header("/index.html", 304), Some(REVALIDATE));
    // Hash-shaped, so the naive rule would pin this 404 for a year.
    assert_eq!(cache_header("/index.4f3a2b1c.js", 404), None);
    assert_eq!(cache_header("/", 500), None);
}
