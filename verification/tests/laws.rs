use helium::buffer::Receive;
use helium::storages::{Broadcast, StorageManager};
use helium::{SharedBuffer, SharedStream, Storage};

#[test]
fn readers_see_every_write_in_order() {
    let mut ring = Broadcast::new(5);
    ring.insert(0u32);
    ring.insert(1);
    // a reader at the writer's cursor, slot 2
    let start = 2;
    for v in [10u32, 11, 12, 13] {
        ring.insert(v);
    }
    let mut cursor = start;
    let mut seen = vec![];
    while let Some((v, next)) = ring.get_item(cursor) {
        seen.push(*v);
        cursor = next;
    }
    assert_eq!(seen, vec![10, 11, 12, 13]);
    assert_eq!(cursor, 1);
}

#[test]
fn ahead_counts_writes_and_reads_take_one() {
    let (mut shared, mut reader): (SharedBuffer<u8>, SharedStream) = SharedStream::new(4, 1);
    assert_eq!(reader.size_hint(&shared).0, 0);
    reader.insert(&mut shared, 1);
    reader.insert(&mut shared, 2);
    reader.insert(&mut shared, 3);
    assert_eq!(reader.size_hint(&shared).0, 3);
    assert!(matches!(reader.poll_receive(&shared), Receive::Ready(Some(1))));
    assert_eq!(reader.size_hint(&shared).0, 2);
    assert!(matches!(reader.poll_receive(&shared), Receive::Ready(Some(2))));
    assert!(matches!(reader.poll_receive(&shared), Receive::Ready(Some(3))));
    assert_eq!(reader.size_hint(&shared).0, 0);
    assert!(matches!(reader.poll_receive(&shared), Receive::Fetch));
}

#[test]
fn register_then_drop_restores_registry() {
    let mut m: StorageManager<u8, Broadcast<u8>> = StorageManager::new(Broadcast::new(2));
    m.new_stream(1, 1);
    let before = m.registry_keys();
    m.new_stream(4, 9);
    m.drop_stream(4, 9);
    assert_eq!(m.registry_keys(), before);
    m.new_stream(1, 2);
    m.drop_stream(1, 2);
    assert_eq!(m.registry_keys(), before);
    assert!(m.register(1, 1));
    assert!(!m.register(1, 2));
    // moving a stream to the key it reads changes nothing
    let _ = m.with_key(1, 1, 1);
    assert_eq!(m.registry_keys(), before);
    assert!(m.register(1, 1));
}

#[test]
fn broadcast_size_hint_counts_unread() {
    let mut ring = Broadcast::new(5);
    ring.insert(0u8);
    ring.insert(1);
    for v in [10u8, 11, 12, 13] {
        ring.insert(v);
    }
    // the reader caught up at slot 2; four values were written since
    assert_eq!(ring.size_hint(2), 4);
    assert_eq!(ring.size_hint(3), 3);
    assert_eq!(ring.size_hint(4), 2);
    assert_eq!(ring.size_hint(0), 1);
    // level with the writer (slot 1): a full ring
    assert_eq!(ring.size_hint(1), 5);
}
