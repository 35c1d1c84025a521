use convex_backend::object_key::{FullyQualifiedObjectKey, ObjectKey, ObjectKeyError};

#[test]
fn object_key_rejects_path_traversal() {
    for s in [
        "..",
        "../foo",
        "foo/../bar",
        "foo/..",
        "foo/..bar",
        "foo/bar..",
        "/etc/passwd",
        "//etc/passwd",
        "foo//bar",
        "foo/",
        "/foo",
    ] {
        assert!(ObjectKey::try_from(s).is_err(), "expected {s} to be rejected");
    }
}

#[test]
fn object_key_accepts_valid_keys() {
    for s in ["abc", "a-b_c.d", "foo/bar", "0f9a5d6e-a9b0-4d2f", "0"] {
        assert!(ObjectKey::try_from(s).is_ok(), "expected {s} to be accepted");
    }
}

#[test]
fn object_key_errors_tell_what_is_wrong() {
    assert_eq!(ObjectKey::try_from("a b").err(), Some(ObjectKeyError::BadCharacter));
    assert_eq!(ObjectKey::try_from("a\u{e9}").err(), Some(ObjectKeyError::BadCharacter));
    assert_eq!(ObjectKey::try_from("a/../b").err(), Some(ObjectKeyError::PathTraversal));
}

#[test]
fn object_key_keeps_its_text() {
    let key = ObjectKey::try_from("foo/bar").unwrap();
    assert_eq!(key.as_str(), "foo/bar");
    assert_eq!(key.into_string(), "foo/bar");
    let full = FullyQualifiedObjectKey::new("prefix/../x".to_string());
    assert_eq!(full.as_str(), "prefix/../x");
    assert_eq!(full.into_string(), "prefix/../x");
}
