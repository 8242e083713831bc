use codefuse::message::RequestId;
use codefuse::pending::PendingTable;
use codefuse::registry::Registry;

#[test]
fn pending_table_records_and_takes_out() {
    let mut t = PendingTable::new();
    assert!(t.is_empty());
    assert_eq!(t.insert(RequestId::Int(1), "initialize".to_string()), None);
    assert_eq!(t.insert(RequestId::Str("1".to_string()), "shutdown".to_string()), None);
    assert!(t.contains(&RequestId::Int(1)));
    assert!(!t.contains(&RequestId::Int(2)));
    assert_eq!(
        t.insert(RequestId::Int(1), "textDocument/hover".to_string()),
        Some("initialize".to_string())
    );
    assert_eq!(t.remove(&RequestId::Int(1)), Some("textDocument/hover".to_string()));
    assert_eq!(t.remove(&RequestId::Int(1)), None);
    assert!(!t.is_empty());
    assert_eq!(t.remove(&RequestId::Str("1".to_string())), Some("shutdown".to_string()));
    assert!(t.is_empty());
}

#[test]
fn registry_keeps_one_handler_per_method() {
    let mut r: Registry<u8> = Registry::new();
    assert_eq!(r.lookup(&"initialize".to_string()), None);
    r.register("initialize".to_string(), 1);
    r.register("shutdown".to_string(), 2);
    r.register("initialize".to_string(), 3);
    assert_eq!(r.lookup(&"initialize".to_string()), Some(3));
    assert_eq!(r.lookup(&"shutdown".to_string()), Some(2));
    assert_eq!(r.lookup(&"exit".to_string()), None);
}
