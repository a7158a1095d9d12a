use s4u_storage::strmap::StrMap;

#[test]
fn insert_get_and_overwrite() {
    let mut m = StrMap::new();
    assert_eq!(m.len(), 0);
    assert_eq!(m.get("email"), None);
    m.insert("email".to_string(), "a@b.c".to_string());
    m.insert("folder".to_string(), "docs".to_string());
    assert_eq!(m.get("email"), Some("a@b.c".to_string()));
    m.insert("email".to_string(), "x@y.z".to_string());
    assert_eq!(m.get("email"), Some("x@y.z".to_string()));
    assert_eq!(m.len(), 2);
}

#[test]
fn remove_takes_the_value_out() {
    let mut m = StrMap::new();
    m.insert("k".to_string(), "v".to_string());
    m.insert("j".to_string(), "w".to_string());
    assert_eq!(m.remove("k"), Some("v".to_string()));
    assert_eq!(m.remove("k"), None);
    assert_eq!(m.get("j"), Some("w".to_string()));
    assert_eq!(m.len(), 1);
    let entries = m.entries();
    assert_eq!(entries, vec![("j".to_string(), "w".to_string())]);
}
