use llmrc::run::Session;
use llmrc::store::{InMemorySessionStore, Table};
use llmrc::text::decimal_text;
use llmrc::types::Message;

#[test]
fn a_load_returns_the_last_save() {
    let mut store = InMemorySessionStore::new();
    assert!(store.load("a").is_none());
    let mut first = Session::new("a");
    first.history.push(Message::user("hello"));
    store.save(first);
    store.save(Session::new("b"));
    assert_eq!(store.load("a").unwrap().history[0].text(), "hello");
    let mut second = Session::new("a");
    second.history.push(Message::user("again"));
    second.history.push(Message::assistant("ok"));
    store.save(second);
    let loaded = store.load("a").unwrap();
    assert_eq!(loaded.history.len(), 2);
    assert_eq!(loaded.history[1].text(), "ok");
    assert!(store.load("b").unwrap().history.is_empty());
}

#[test]
fn tables_replace_values_in_place() {
    let mut table: Table<String, Session> = Table::new();
    table.insert("k".to_string(), Session::new("k"));
    table.insert("k".to_string(), Session::new("other"));
    assert_eq!(table.get(&"k".to_string()).unwrap().id, "other");
    assert!(table.get(&"missing".to_string()).is_none());
}

#[test]
fn decimal_text_writes_numbers() {
    assert_eq!(decimal_text(0), "0");
    assert_eq!(decimal_text(9), "9");
    assert_eq!(decimal_text(10), "10");
    assert_eq!(decimal_text(1234567), "1234567");
    assert_eq!(decimal_text(usize::MAX), usize::MAX.to_string());
}
