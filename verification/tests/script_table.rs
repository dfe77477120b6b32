use cargo_run_script::script_table::ScriptTable;

#[test]
fn new_table_is_empty() {
    let table = ScriptTable::new();
    assert!(table.is_empty());
    assert_eq!(table.len(), 0);
    assert!(table.names().is_empty());
    assert!(!table.contains("hello"));
}

#[test]
fn resolve_gives_the_body_unchanged() {
    let mut table = ScriptTable::new();
    table.insert("hello".to_string(), "  echo hi $1  ".to_string());
    assert_eq!(table.resolve("hello").unwrap(), "  echo hi $1  ");
}

#[test]
fn resolve_miss_carries_the_name() {
    let mut table = ScriptTable::new();
    table.insert("hello".to_string(), "echo hi".to_string());
    let miss = table.resolve("goodbye").unwrap_err();
    assert_eq!(miss.name, "goodbye");
}

#[test]
fn resolve_needs_the_exact_key() {
    let mut table = ScriptTable::new();
    table.insert("hello".to_string(), "echo hi".to_string());
    assert!(table.resolve("Hello").is_err());
    assert!(table.resolve("hell").is_err());
    assert!(table.resolve("hello ").is_err());
    assert!(table.resolve("").is_err());
}

#[test]
fn resolve_on_empty_table_fails() {
    let table = ScriptTable::new();
    assert_eq!(table.resolve("anything").unwrap_err().name, "anything");
}

#[test]
fn names_lists_every_key_once() {
    let mut table = ScriptTable::new();
    table.insert("build".to_string(), "cargo build".to_string());
    table.insert("test".to_string(), "cargo test".to_string());
    table.insert("build".to_string(), "cargo build --release".to_string());
    assert_eq!(table.names(), vec!["build".to_string(), "test".to_string()]);
    assert_eq!(table.len(), 2);
    assert!(!table.is_empty());
}

#[test]
fn insert_replaces_the_body() {
    let mut table = ScriptTable::new();
    table.insert("build".to_string(), "cargo build".to_string());
    table.insert("build".to_string(), "cargo build --release".to_string());
    assert_eq!(table.resolve("build").unwrap(), "cargo build --release");
}

#[test]
fn contains_tells_hit_from_miss() {
    let mut table = ScriptTable::new();
    table.insert("a".to_string(), "1".to_string());
    table.insert("b".to_string(), "2".to_string());
    assert!(table.contains("a"));
    assert!(table.contains("b"));
    assert!(!table.contains("c"));
}
