use helium::registry::WakerRegistry;

#[test]
fn registry_wakes_changed_keys_only() {
    let mut r = WakerRegistry::new();
    assert!(!r.changed());
    r.new_stream(1, 10);
    r.new_stream(1, 11);
    r.new_stream(2, 20);
    // key 3 has no stream: marking it does nothing
    r.set_changed(3);
    assert!(!r.changed());
    r.set_changed(1);
    assert!(r.changed());
    assert!(r.register(1, 10));
    assert!(!r.register(2, 10));
    let mut woken = r.wake_all();
    woken.sort();
    assert_eq!(woken, vec![(1, 10), (1, 11)]);
    assert!(!r.changed());
    assert!(r.wake_all().is_empty());
}

#[test]
fn registry_drop_removes_empty_keys_and_marks() {
    let mut r = WakerRegistry::new();
    r.new_stream(5, 1);
    r.set_changed(5);
    r.drop_stream(5, 1);
    assert!(!r.changed());
    assert!(!r.register(5, 1));
    // a dropped key can be registered again
    r.new_stream(5, 2);
    r.set_changed(5);
    r.drop_stream(5, 9);
    assert!(r.changed());
    assert_eq!(r.wake_all(), vec![(5, 2)]);
}
