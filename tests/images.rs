use codeshare::image::{add_image, contains_image, remove_image, ImageData};

fn img(id: &str) -> ImageData {
    ImageData { id: id.to_string(), data_url: format!("data:image/png;base64,{id}"), width: 10, height: 20 }
}

fn ids(v: &[ImageData]) -> Vec<String> {
    v.iter().map(|i| i.id.clone()).collect()
}

#[test]
fn add_appends_new_image() {
    let mut v = vec![img("a")];
    add_image(&mut v, img("b"));
    assert_eq!(ids(&v), vec!["a", "b"]);
}

#[test]
fn add_with_present_id_leaves_list_unchanged() {
    let mut v = vec![img("a"), img("b")];
    let mut other = img("a");
    other.width = 99;
    add_image(&mut v, other);
    assert_eq!(v, vec![img("a"), img("b")]);
}

#[test]
fn add_to_empty_list() {
    let mut v = Vec::new();
    add_image(&mut v, img("x"));
    assert_eq!(v, vec![img("x")]);
}

#[test]
fn remove_after_add_leaves_id_absent() {
    let mut v = vec![img("a"), img("b")];
    add_image(&mut v, img("c"));
    remove_image(&mut v, &"c".to_string());
    assert!(!contains_image(&v, &"c".to_string()));
    assert_eq!(ids(&v), vec!["a", "b"]);
}

#[test]
fn remove_drops_every_match_and_keeps_order() {
    let mut v = vec![img("a"), img("b"), img("a"), img("c")];
    remove_image(&mut v, &"a".to_string());
    assert_eq!(ids(&v), vec!["b", "c"]);
}

#[test]
fn remove_unknown_id_is_noop() {
    let mut v = vec![img("a"), img("b")];
    remove_image(&mut v, &"z".to_string());
    assert_eq!(v, vec![img("a"), img("b")]);
}

#[test]
fn contains_image_finds_by_id() {
    let v = vec![img("a"), img("b")];
    assert!(contains_image(&v, &"b".to_string()));
    assert!(!contains_image(&v, &"c".to_string()));
    assert!(!contains_image(&Vec::new(), &"a".to_string()));
}

#[test]
fn duplicate_copies_every_field() {
    let a = img("q");
    assert_eq!(a.duplicate(), a);
}
