use std::time::Duration;

use helium::operators::{Empty, Interval as TickInterval};
use helium::storages::SyncCell;
use helium::Storage;
use helium::{EmptyTopic, HandlerSymbol, Interval, Negotiate, Timeout, VLock};

#[test]
fn handler_symbol_from_str_and_string() {
    let a = HandlerSymbol::from("master");
    let b = HandlerSymbol::from(String::from("master"));
    let c = HandlerSymbol::new(String::from("node"));
    assert_eq!(a, b);
    assert_ne!(a, c);
    assert_eq!(c.as_str(), "node");
    let n = Negotiate::new(a.clone());
    assert_eq!(n.handler(), &b);
    assert_eq!(n.clone().handler().as_str(), "master");
}

#[test]
fn vlock_try_lock_excludes() {
    let lock = VLock::new();
    let guard = lock.try_lock();
    assert!(guard.is_some());
    assert!(lock.try_lock().is_none());
    guard.unwrap().release();
    assert!(lock.try_lock().is_some());
}

#[test]
fn topics_carry_their_settings() {
    let i = Interval::new(Duration::from_millis(10));
    assert_eq!(i.duration(), Duration::from_millis(10));
    let t = Timeout::new(Duration::from_secs(2));
    assert_eq!(t.duration(), Duration::from_secs(2));
    let e: EmptyTopic<u8, &str, ()> = EmptyTopic::new("label");
    assert_eq!(*e.label(), "label");
    let d: EmptyTopic<u8, &str, ()> = EmptyTopic::default();
    assert_eq!(*d.label(), "default");
    let empty: Empty<&str, u32, ()> = Empty::new("id");
    assert_eq!(*empty.topic_id(), "id");
    assert_eq!(empty.storage().capacity(), 1024);
    let tick = TickInterval::new(Duration::from_millis(1));
    assert_eq!(tick.duration(), Duration::from_millis(1));
    let s = tick.storage::<u8>();
    assert_eq!(s.capacity(), 128);
    assert!(s.get_item(0).is_none());
}

#[test]
fn sync_cell_gets_and_sets() {
    let mut cell = SyncCell::new(3);
    assert_eq!(*cell.get(), 3);
    *cell.get_mut() = 4;
    assert_eq!(*cell.get(), 4);
}
