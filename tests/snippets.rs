use codeshare::image::ImageData;
use codeshare::snippet::{new_snippet, CreateRequest, TTL_MILLIS};

fn img(id: &str, w: u32) -> ImageData {
    ImageData { id: id.to_string(), data_url: "data:x".to_string(), width: w, height: 1 }
}

#[test]
fn new_snippet_defaults() {
    let req = CreateRequest { slug: None, content: "print(1)".to_string(), language: None, images: None };
    let s = new_snippet("abc".to_string(), req, 1_000);
    assert_eq!(s.slug, "abc");
    assert_eq!(s.content, "print(1)");
    assert_eq!(s.language, "javascript");
    assert!(s.images.is_empty());
    assert_eq!(s.created_at, 1_000);
    assert_eq!(s.expires_at, 1_000 + 86_400_000);
    assert_eq!(TTL_MILLIS, 86_400_000);
}

#[test]
fn new_snippet_keeps_language_and_first_of_repeated_images() {
    let req = CreateRequest {
        slug: Some("x".to_string()),
        content: String::new(),
        language: Some("rust".to_string()),
        images: Some(vec![img("a", 1), img("b", 2), img("a", 3)]),
    };
    let s = new_snippet("xyz".to_string(), req, 0);
    assert_eq!(s.language, "rust");
    assert_eq!(s.images, vec![img("a", 1), img("b", 2)]);
}

#[test]
fn liveness_ends_at_expiry() {
    let req = CreateRequest { slug: None, content: String::new(), language: None, images: None };
    let s = new_snippet("abc".to_string(), req, 5);
    assert!(s.is_live(5));
    assert!(s.is_live(5 + TTL_MILLIS - 1));
    assert!(!s.is_live(5 + TTL_MILLIS));
}
