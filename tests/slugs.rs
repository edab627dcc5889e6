use codeshare::slug::{
    after_slug_check, is_reserved, probe_slug, requested_slug, sanitize, slug_form_of, slug_form_with, validate, SlugCheck,
    SlugError, SlugSearch, MAX_SLUG_CHECKS,
};

#[test]
fn sanitize_lowercases_and_replaces() {
    assert_eq!(sanitize("Hello World!"), "hello-world");
}

#[test]
fn sanitize_trims_hyphens() {
    assert_eq!(sanitize("--Foo__Bar--"), "foo--bar");
    assert_eq!(sanitize("!!!"), "");
    assert_eq!(sanitize(""), "");
}

#[test]
fn sanitize_keeps_unicode_letters_lowercased() {
    assert_eq!(sanitize("ÄBC Ölé"), "äbc-ölé");
}

#[test]
fn validate_accepts_plain_slug() {
    assert_eq!(validate("my-snippet"), Ok(()));
    assert_eq!(validate("abc"), Ok(()));
}

#[test]
fn validate_rejects_short() {
    assert_eq!(validate("ab"), Err(SlugError::TooShort));
    assert_eq!(validate(""), Err(SlugError::TooShort));
}

#[test]
fn validate_rejects_long() {
    let long = "a".repeat(61);
    assert_eq!(validate(&long), Err(SlugError::TooLong));
    assert_eq!(validate(&"a".repeat(60)), Ok(()));
}

#[test]
fn validate_counts_bytes() {
    // two characters, four bytes: long enough, but not of slug shape
    assert_eq!(validate("éé"), Err(SlugError::Malformed));
}

#[test]
fn validate_rejects_bad_shape() {
    assert_eq!(validate("-abc"), Err(SlugError::Malformed));
    assert_eq!(validate("abc-"), Err(SlugError::Malformed));
    assert_eq!(validate("Abc"), Err(SlugError::Malformed));
    assert_eq!(validate("a_bc"), Err(SlugError::Malformed));
}

#[test]
fn validate_rejects_reserved() {
    for r in ["api", "admin", "health", "new", "static"] {
        assert_eq!(validate(r), Err(SlugError::Reserved(r.to_string())));
    }
    assert!(is_reserved("ws"));
    assert!(!is_reserved("apis"));
}

#[test]
fn requested_slug_absent_or_blank() {
    assert_eq!(requested_slug(&None), Ok(None));
    assert_eq!(requested_slug(&Some("   ".to_string())), Ok(None));
}

#[test]
fn requested_slug_sanitized() {
    assert_eq!(requested_slug(&Some("  My Slug ".to_string())), Ok(Some("my-slug".to_string())));
}

#[test]
fn requested_slug_invalid() {
    assert_eq!(requested_slug(&Some(" x ".to_string())), Err(SlugError::TooShort));
    assert_eq!(
        requested_slug(&Some(" Admin ".to_string())),
        Err(SlugError::Reserved("admin".to_string()))
    );
}

#[test]
fn probe_and_answer() {
    let (slug, valid) = probe_slug("Cool Code");
    assert_eq!(slug, "cool-code");
    assert!(valid);
    assert_eq!(SlugCheck::answer(slug.clone(), valid, false), SlugCheck { available: true, slug: slug.clone() });
    assert!(!SlugCheck::answer(slug, valid, true).available);
    let (slug, valid) = probe_slug("ws");
    assert!(!valid);
    assert!(!SlugCheck::answer(slug, valid, false).available);
}

#[test]
fn generated_slug_search() {
    assert_eq!(after_slug_check(1, false), SlugSearch::Use);
    assert_eq!(after_slug_check(1, true), SlugSearch::Redraw);
    assert_eq!(after_slug_check(MAX_SLUG_CHECKS - 1, true), SlugSearch::Redraw);
    assert_eq!(after_slug_check(MAX_SLUG_CHECKS, true), SlugSearch::RedrawUnchecked);
    assert_eq!(after_slug_check(MAX_SLUG_CHECKS, false), SlugSearch::Use);
}

#[test]
fn error_messages() {
    assert_eq!(SlugError::TooShort.message(), "Slug must be ≥ 3 characters");
    assert_eq!(SlugError::TooLong.message(), "Slug must be ≤ 60 characters");
    assert_eq!(
        SlugError::Malformed.message(),
        "Only lowercase letters, numbers, hyphens. No leading/trailing hyphens."
    );
    assert_eq!(SlugError::Reserved("admin".to_string()).message(), "'admin' is reserved");
    assert_eq!(validate("admin").unwrap_err().message(), "'admin' is reserved");
}

#[test]
fn slug_form_of_lowered_text() {
    assert_eq!(slug_form_of("hello world!"), "hello-world");
    assert_eq!(slug_form_of("--a.b--"), "a-b");
    assert_eq!(slug_form_of("Keep"), "Keep");
}

#[test]
fn slug_form_with_given_classes() {
    let cs: Vec<char> = "-a!b é-".chars().collect();
    let alnum = vec![false, true, false, true, false, true, false];
    assert_eq!(slug_form_with(&cs, &alnum), "a-b-é");
    assert_eq!(slug_form_with(&Vec::new(), &Vec::new()), "");
}
