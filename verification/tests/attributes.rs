use opentelemetry_tracing::attributes::{same_text, Attributes};

fn pair(key: &str, value: &str) -> (String, String) {
    (key.to_string(), value.to_string())
}

#[test]
fn new_attributes_are_empty() {
    let attributes = Attributes::new();
    assert_eq!(attributes.len(), 0);
    assert_eq!(attributes.get("anything"), None);
}

#[test]
fn insert_then_get() {
    let mut attributes = Attributes::new();
    attributes.insert("k1".to_string(), "v1".to_string());
    attributes.insert("k2".to_string(), "v2".to_string());
    assert_eq!(attributes.get("k1"), Some(&"v1".to_string()));
    assert_eq!(attributes.get("k2"), Some(&"v2".to_string()));
    assert_eq!(attributes.get("k3"), None);
    assert_eq!(attributes.get("k"), None);
    assert_eq!(attributes.get(""), None);
    assert_eq!(attributes.len(), 2);
}

#[test]
fn the_later_write_wins() {
    let mut attributes = Attributes::new();
    attributes.insert("k".to_string(), "first".to_string());
    attributes.insert("other".to_string(), "x".to_string());
    attributes.insert("k".to_string(), "second".to_string());
    assert_eq!(attributes.get("k"), Some(&"second".to_string()));
    assert_eq!(attributes.get("other"), Some(&"x".to_string()));
    assert_eq!(attributes.len(), 2);
}

#[test]
fn record_writes_in_order() {
    let mut attributes = Attributes::new();
    attributes.record(vec![pair("a", "1"), pair("b", "2"), pair("a", "3")]);
    assert_eq!(attributes.get("a"), Some(&"3".to_string()));
    assert_eq!(attributes.get("b"), Some(&"2".to_string()));
    assert_eq!(attributes.len(), 2);
    attributes.record(Vec::new());
    assert_eq!(attributes.len(), 2);
}

#[test]
fn recording_twice_changes_nothing() {
    let mut attributes = Attributes::new();
    attributes.record(vec![pair("a", "1"), pair("b", "2")]);
    attributes.record(vec![pair("b", "9"), pair("c", "4")]);
    attributes.record(vec![pair("b", "9"), pair("c", "4")]);
    assert_eq!(attributes.get("a"), Some(&"1".to_string()));
    assert_eq!(attributes.get("b"), Some(&"9".to_string()));
    assert_eq!(attributes.get("c"), Some(&"4".to_string()));
    assert_eq!(attributes.len(), 3);
}

#[test]
fn the_empty_key_is_a_key() {
    let mut attributes = Attributes::new();
    attributes.insert(String::new(), "v".to_string());
    assert_eq!(attributes.get(""), Some(&"v".to_string()));
    assert_eq!(attributes.len(), 1);
}

#[test]
fn same_text_compares_characters() {
    assert!(same_text("", ""));
    assert!(same_text("abc", "abc"));
    assert!(!same_text("abc", "abd"));
    assert!(!same_text("abc", "ab"));
    assert!(!same_text("ab", "abc"));
    assert!(!same_text("", "a"));
    assert!(same_text("h\u{e9}llo", "h\u{e9}llo"));
    assert!(!same_text("h\u{e9}llo", "hello"));
}
