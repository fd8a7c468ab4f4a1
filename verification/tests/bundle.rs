use zscheme::bundle::{canonicalise_created_at, try_canonicalise_created_at, CreatedAtError};

#[test]
fn canonicalises_legacy_fractional_created_at() {
    assert_eq!(
        canonicalise_created_at("2026-07-19T19:45:24.489Z").unwrap(),
        "2026-07-19T19:45:24Z"
    );
}

#[test]
fn converts_offsets_to_utc() {
    assert_eq!(
        canonicalise_created_at("2026-07-19T21:45:24+02:00").unwrap(),
        "2026-07-19T19:45:24Z"
    );
    assert_eq!(
        canonicalise_created_at("2026-01-01T00:30:00.5-01:00").unwrap(),
        "2026-01-01T01:30:00Z"
    );
}

#[test]
fn canonical_times_are_unchanged() {
    let canonical = "2024-02-29T23:59:59Z";
    assert_eq!(canonicalise_created_at(canonical).unwrap(), canonical);
}

#[test]
fn rejects_what_is_not_a_date_time() {
    let err = canonicalise_created_at("yesterday").unwrap_err();
    assert_eq!(err, CreatedAtError::Invalid);
    assert_eq!(err.message(), "invalid secret bundle created_at");
    assert_eq!(CreatedAtError::Format.message(), "format secret bundle created_at");
}

#[test]
fn reports_instants_outside_the_utc_range() {
    assert_eq!(try_canonicalise_created_at("9999-12-31T23:00:00-02:00"), None);
    assert_eq!(
        try_canonicalise_created_at("2026-07-19T19:45:24.489Z"),
        Some(Ok("2026-07-19T19:45:24Z".to_string()))
    );
    assert_eq!(try_canonicalise_created_at("nope"), Some(Err(CreatedAtError::Invalid)));
}

#[test]
fn canonical_form_is_a_fixed_point() {
    let once = canonicalise_created_at("2026-07-19T21:45:24.999+02:00").unwrap();
    assert_eq!(once, "2026-07-19T19:45:24Z");
    assert_eq!(canonicalise_created_at(&once).unwrap(), once);
}

#[test]
fn only_changed_times_are_rewritten() {
    assert!(zscheme::bundle::needs_rewrite("2026-07-19T19:45:24.489Z", "2026-07-19T19:45:24Z"));
    assert!(!zscheme::bundle::needs_rewrite("2026-07-19T19:45:24Z", "2026-07-19T19:45:24Z"));
}
