use std::cell::RefCell;
use std::rc::Rc;

use fxhub::dispatch::handle_line;
use fxhub::dispatch::listener_key;
use fxhub::dispatch::route_line;
use fxhub::dispatch::ListenerTable;

#[test]
fn listener_key_joins_with_underscore() {
    assert_eq!(listener_key(b"a1", b"t1"), b"a1_t1".to_vec());
}

#[test]
fn second_registration_wins() {
    let mut table: ListenerTable<u8> = ListenerTable::new();
    table.add_listener(b"a1", b"t1", 1);
    table.add_listener(b"a1", b"t1", 2);
    let line = b"data:{\"app-id\":\"a1\",\"type\":\"t1\",\"x\":5}";
    let (cb, _doc) = handle_line(&table, line).unwrap();
    assert_eq!(*cb, 2);
    assert_eq!(table.lookup(b"a1_t1"), Some(&2));
}

#[test]
fn data_line_fires_callback_exactly_once() {
    let count = Rc::new(RefCell::new(0));
    let mut table: ListenerTable<Box<dyn Fn()>> = ListenerTable::new();
    let c = Rc::clone(&count);
    table.add_listener(
        b"a1",
        b"t1",
        Box::new(move || {
            *c.borrow_mut() += 1;
        }),
    );
    let line = b"data:{\"app-id\":\"a1\",\"type\":\"t1\",\"x\":5}";
    if let Some((cb, doc)) = handle_line(&table, line) {
        cb();
        assert_eq!(doc.get(b"x"), Some(&b"5".to_vec()));
        assert_eq!(doc.get(b"app-id"), Some(&b"\"a1\"".to_vec()));
    } else {
        panic!("expected a routed event");
    }
    assert_eq!(*count.borrow(), 1);
    assert!(handle_line(&table, b"event: {\"app-id\":\"a1\",\"type\":\"t1\"}").is_none());
    assert_eq!(*count.borrow(), 1);
}

#[test]
fn bad_json_data_line_is_dropped() {
    let mut table: ListenerTable<u8> = ListenerTable::new();
    table.add_listener(b"a1", b"t1", 7);
    assert!(route_line(b"data:{oops").is_none());
    assert!(handle_line(&table, b"data:{oops").is_none());
    assert!(handle_line(&table, b"data:{\"app-id\":\"a1\",\"type\":\"t1\"}").is_some());
}

#[test]
fn event_with_missing_or_non_string_fields_is_dropped() {
    let mut table: ListenerTable<u8> = ListenerTable::new();
    table.add_listener(b"a1", b"t1", 7);
    assert!(handle_line(&table, b"data:{\"app-id\":\"a1\"}").is_none());
    assert!(handle_line(&table, b"data:{\"app-id\":1,\"type\":\"t1\"}").is_none());
    assert!(handle_line(&table, b"data:42").is_none());
}

#[test]
fn unregistered_event_is_dropped() {
    let table: ListenerTable<u8> = ListenerTable::new();
    assert!(handle_line(&table, b"data:{\"app-id\":\"zz\",\"type\":\"t1\"}").is_none());
}
