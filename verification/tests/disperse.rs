use helium::storages::{Disperse, Storage};

#[test]
fn disperse_keeps_keys_apart() {
    let mut d: Disperse<&str> = Disperse::new(4);
    assert!(d.get_item(0).is_none());
    assert_eq!(d.get_prev_cursor(), 0);
    assert_eq!(d.size_hint(0), 0);
    d.insert(1, "a");
    d.insert(2, "b");
    d.insert(1, "c");
    // reading key 0, which has no ring
    assert!(d.get_item(0).is_none());
    d.with_key(1);
    assert_eq!(d.get_item(0), Some((&"a", 1)));
    assert_eq!(d.get_item(1), Some((&"c", 2)));
    assert!(d.get_item(2).is_none());
    assert_eq!(d.get_prev_cursor(), 1);
    assert_eq!(d.size_hint(0), 2);
    d.with_key(2);
    assert_eq!(d.get_item(0), Some((&"b", 1)));
    assert_eq!(d.size_hint(0), 1);
}

#[test]
fn disperse_default_key_is_zero() {
    let mut d: Disperse<u8> = Disperse::new(2);
    d.insert_with_default(5);
    d.refresh();
    assert_eq!(d.get_item(0), Some((&5, 1)));
}
