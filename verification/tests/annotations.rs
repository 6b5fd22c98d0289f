use autotls::text::{contains_dot, same_text};
use autotls::{Annotation, Annotations, Error, ObjectKey, StructuralError};

#[test]
fn new_annotations_are_empty() {
    let annotations = Annotations::new();
    assert_eq!(annotations.len(), 0);
    assert_eq!(annotations.get("autotls/domain"), None);
    assert_eq!(annotations.entries().len(), 0);
}

#[test]
fn insert_then_get() {
    let mut annotations = Annotations::new();
    assert_eq!(annotations.insert("a".to_string(), "1".to_string()), None);
    assert_eq!(annotations.insert("b".to_string(), "2".to_string()), None);
    assert_eq!(annotations.get("a"), Some(&"1".to_string()));
    assert_eq!(annotations.get("b"), Some(&"2".to_string()));
    assert_eq!(annotations.get("c"), None);
    assert_eq!(annotations.len(), 2);
}

#[test]
fn insert_replaces_and_returns_the_old_value() {
    let mut annotations = Annotations::new();
    annotations.insert("a".to_string(), "1".to_string());
    annotations.insert("b".to_string(), "2".to_string());
    assert_eq!(annotations.insert("a".to_string(), "3".to_string()), Some("1".to_string()));
    assert_eq!(annotations.get("a"), Some(&"3".to_string()));
    assert_eq!(annotations.get("b"), Some(&"2".to_string()));
    assert_eq!(annotations.len(), 2);
}

#[test]
fn entries_list_each_key_once() {
    let mut annotations = Annotations::new();
    annotations.insert("k".to_string(), "v1".to_string());
    annotations.insert("k".to_string(), "v2".to_string());
    annotations.insert("j".to_string(), "w".to_string());
    let mut listed: Vec<Annotation> = annotations.entries().clone();
    listed.sort_by(|x, y| x.key.cmp(&y.key));
    assert_eq!(
        listed,
        vec![
            Annotation { key: "j".to_string(), value: "w".to_string() },
            Annotation { key: "k".to_string(), value: "v2".to_string() }
        ]
    );
}

#[test]
fn keys_are_compared_exactly() {
    let mut annotations = Annotations::new();
    annotations.insert("autotls/domain".to_string(), "example.com".to_string());
    assert_eq!(annotations.get("autotls/domai"), None);
    assert_eq!(annotations.get("autotls/domain "), None);
    assert_eq!(annotations.get("Autotls/domain"), None);
    assert_eq!(annotations.get(""), None);
    assert_eq!(annotations.get("autotls/domain"), Some(&"example.com".to_string()));
}

#[test]
fn clone_keeps_every_entry() {
    let mut annotations = Annotations::new();
    annotations.insert("a".to_string(), "1".to_string());
    annotations.insert("b".to_string(), "2".to_string());
    let mut copy = annotations.clone();
    assert_eq!(copy.len(), 2);
    assert_eq!(copy.get("a"), Some(&"1".to_string()));
    assert_eq!(copy.get("b"), Some(&"2".to_string()));
    copy.insert("a".to_string(), "9".to_string());
    assert_eq!(annotations.get("a"), Some(&"1".to_string()));
}

#[test]
fn contains_dot_finds_the_dot_anywhere() {
    assert!(contains_dot("."));
    assert!(contains_dot("a.b"));
    assert!(contains_dot(".a"));
    assert!(contains_dot("a."));
    assert!(contains_dot("caf\u{e9}.example"));
    assert!(!contains_dot(""));
    assert!(!contains_dot("localhost"));
    assert!(!contains_dot("a,b"));
    assert!(!contains_dot("a\u{3002}b"));
}

#[test]
fn same_text_is_exact_equality() {
    assert!(same_text("", ""));
    assert!(same_text("auto", "auto"));
    assert!(!same_text("auto", "aut"));
    assert!(!same_text("aut", "auto"));
    assert!(!same_text("auto", "autO"));
    assert!(!same_text("", "a"));
    assert!(same_text("caf\u{e9}", "caf\u{e9}"));
    assert!(!same_text("cafe", "caf\u{e9}"));
}

#[test]
fn structural_error_messages() {
    assert_eq!(StructuralError::MissingSpec.message(), "spec missing from ingress");
    assert_eq!(StructuralError::MissingName.message(), "name missing from ingress metadata");
    assert_eq!(StructuralError::MissingRules.message(), "rules missing from spec");
}

#[test]
fn object_key_paths() {
    assert_eq!(ObjectKey::Name.path(), ".metadata.name");
    assert_eq!(ObjectKey::Namespace.path(), ".metadata.namespace");
}

#[test]
fn error_messages() {
    assert_eq!(
        Error::PatchApplyFailed("ApiError: forbidden".to_string()).message(),
        "Failed to patch Ingress: ApiError: forbidden"
    );
    assert_eq!(
        Error::MissingObjectKey(ObjectKey::Name).message(),
        "MissingObjectKey: .metadata.name"
    );
    assert_eq!(
        Error::MissingObjectKey(ObjectKey::Namespace).message(),
        "MissingObjectKey: .metadata.namespace"
    );
    assert_eq!(
        Error::Unexpected(StructuralError::MissingRules).message(),
        "rules missing from spec"
    );
}
