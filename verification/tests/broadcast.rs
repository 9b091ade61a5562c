use helium::storages::{Broadcast, MemCache};
use helium::Storage;

#[test]
fn broadcast_starts_empty() {
    let b: Broadcast<u32> = Broadcast::new(4);
    assert_eq!(b.capacity(), 4);
    assert!(b.get_item(0).is_none());
    assert!(b.get_item(1).is_none());
    assert_eq!(b.get_prev_cursor(), 3);
    // a reader level with the writer counts the whole ring
    assert_eq!(b.size_hint(0), 4);
}

#[test]
fn broadcast_read_after_write() {
    let mut b = Broadcast::new(3);
    b.insert(10u32);
    assert_eq!(b.get_item(0), Some((&10, 1)));
    // the writer is at slot 1 now
    assert!(b.get_item(1).is_none());
    assert_eq!(b.get_prev_cursor(), 0);
    assert_eq!(b.size_hint(0), 1);
    b.insert(20);
    b.insert(30);
    // the ring wrapped: the writer is back at 0, slot 2 holds 30
    assert_eq!(b.get_item(2), Some((&30, 0)));
    assert_eq!(b.get_prev_cursor(), 2);
    assert!(b.get_item(0).is_none());
    b.insert(40);
    // slot 0 was overwritten and the writer is at slot 1
    assert_eq!(b.get_item(0), Some((&40, 1)));
    assert_eq!(b.get_item(1), None);
    assert_eq!(b.get_item(2), Some((&30, 0)));
    assert_eq!(b.size_hint(1), 3);
    assert_eq!(b.size_hint(2), 2);
    assert_eq!(b.size_hint(0), 1);
}

#[test]
fn broadcast_capacity_one_wraps_onto_itself() {
    let mut b = Broadcast::new(1);
    b.insert(7u8);
    // the writer's cursor is back on the only slot: nothing to read
    assert!(b.get_item(0).is_none());
    assert_eq!(b.get_prev_cursor(), 0);
}

#[test]
fn broadcast_clone_keeps_cursor_not_values() {
    let mut b = Broadcast::new(3);
    b.insert(1u32);
    b.insert(2);
    let c = b.clone();
    assert_eq!(c.capacity(), 3);
    assert_eq!(c.get_prev_cursor(), 1);
    assert!(c.get_item(0).is_none());
    assert!(c.get_item(1).is_none());
    assert_eq!(b.get_item(0), Some((&1, 1)));
}

#[test]
fn mem_cache_refresh_bumps_cursor() {
    let mut m = MemCache::new(String::from("v"));
    assert_eq!(m.get_item(9), Some((&String::from("v"), 0)));
    m.insert(String::from("ignored"));
    m.refresh();
    m.refresh();
    assert_eq!(m.get_item(0), Some((&String::from("v"), 2)));
    assert_eq!(m.size_hint(3), 0);
    assert_eq!(m.get_prev_cursor(), 0);
    let c = m.clone();
    assert_eq!(c.get_item(0), Some((&String::from("v"), 2)));
}
