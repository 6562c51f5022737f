use recovery_state::keys::{StateKey, StepId};
use recovery_state::table::{Table, TableKey};

fn key(k: &str) -> StateKey {
    StateKey(k.to_string())
}

#[test]
fn new_table_is_empty() {
    let table: Table<StateKey, u32> = Table::new();
    assert!(table.is_empty());
    assert!(table.keys().is_empty());
    assert!(table.into_entries().is_empty());
}

#[test]
fn insert_sets_and_overwrites() {
    let mut table: Table<StateKey, u32> = Table::new();
    table.insert(key("a"), 1);
    table.insert(key("b"), 2);
    table.insert(key("a"), 3);
    assert!(!table.is_empty());
    let mut entries: Vec<(String, u32)> =
        table.into_entries().into_iter().map(|(k, v)| (k.0, v)).collect();
    entries.sort();
    assert_eq!(entries, vec![("a".to_string(), 3), ("b".to_string(), 2)]);
}

#[test]
fn remove_takes_the_value_out() {
    let mut table: Table<StepId, &str> = Table::new();
    table.insert(StepId("x".to_string()), "one");
    table.insert(StepId("y".to_string()), "two");
    table.insert(StepId("z".to_string()), "three");
    assert_eq!(table.remove(&StepId("y".to_string())), Some("two"));
    assert_eq!(table.remove(&StepId("y".to_string())), None);
    assert_eq!(table.remove(&StepId("w".to_string())), None);
    let mut keys: Vec<String> = table.keys().into_iter().map(|k| k.0).collect();
    keys.sort();
    assert_eq!(keys, vec!["x".to_string(), "z".to_string()]);
    assert_eq!(table.remove(&StepId("x".to_string())), Some("one"));
    assert_eq!(table.remove(&StepId("z".to_string())), Some("three"));
    assert!(table.is_empty());
}

#[test]
fn keys_are_copies() {
    let mut table: Table<StateKey, u8> = Table::new();
    table.insert(key("only"), 0);
    let keys = table.keys();
    assert_eq!(keys, vec![key("only")]);
    assert_eq!(table.remove(&keys[0]), Some(0));
}

#[test]
fn table_keys_decide_sameness_by_text() {
    assert!(key("a").same_key(&key("a")));
    assert!(!key("a").same_key(&key("b")));
    assert!(!key("a").same_key(&key("")));
    assert_eq!(key("copy").copy_key(), key("copy"));
    assert!(StepId("s".to_string()).same_key(&StepId("s".to_string())));
    assert!(!StepId("s".to_string()).same_key(&StepId("S".to_string())));
    assert_eq!(StepId("s".to_string()).copy_key(), StepId("s".to_string()));
}
