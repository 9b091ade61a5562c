use helium::buffer::{Dropped, Fetched, Receive, SharedBuffer as Buffer};
use helium::shared::{SharedBuffer, SharedStream};

#[test]
fn buffer_fetch_then_read() {
    let mut b: Buffer<u32> = Buffer::new(6, 2);
    assert_eq!(b.capacity(), 6);
    assert_eq!(b.batch_size(), 2);
    assert_eq!(b.cursor(), 0);
    // a reader at the writer's cursor must fetch
    assert!(matches!(b.poll_receive(0), Receive::Fetch));
    assert!(b.push_fetched(1, 0));
    assert!(!b.push_fetched(2, 1));
    assert_eq!(b.cursor(), 2);
    match b.finish_fetch(0, 7) {
        Fetched::Ready(v, woken) => {
            assert_eq!(v, Some(1));
            assert!(woken.is_empty());
        }
        Fetched::Pending => panic!("expected a value"),
    }
    assert!(matches!(b.poll_receive(1), Receive::Ready(Some(2))));
}

#[test]
fn buffer_waiters_are_woken_on_insert() {
    let mut b: Buffer<u32> = Buffer::new(2, 1);
    assert!(matches!(b.finish_fetch(0, 3), Fetched::Pending));
    b.wait(4);
    b.wait(3);
    let mut woken = b.insert(9);
    woken.sort();
    assert_eq!(woken, vec![3, 4]);
    assert!(b.insert(10).is_empty());
    assert_eq!(b.cursor(), 0);
}

#[test]
fn buffer_new_stream_cursor_and_ids() {
    let mut b: Buffer<u8> = Buffer::new(3, 1);
    // nothing written: a new reader starts level with the writer
    assert_eq!(b.new_stream_cursor(), 0);
    b.insert(5);
    assert_eq!(b.new_stream_cursor(), 0);
    assert_eq!(b.new_stream_id(), 1);
    assert_eq!(b.new_stream_id(), 2);
    b.wait(1);
    b.wait(2);
    match b.drop_stream(1) {
        Dropped::Woken(w) => assert_eq!(w, vec![2]),
        Dropped::Released => panic!("two holders remain"),
    }
    assert!(matches!(b.drop_stream(2), Dropped::Woken(_)));
    assert!(matches!(b.drop_stream(0), Dropped::Released));
}

#[test]
fn shared_stream_readers_follow_the_writer() {
    let (mut shared, mut first): (SharedBuffer<u32>, SharedStream) = SharedStream::new(4, 1);
    assert_eq!(first.size_hint(&shared), (0, None));
    assert!(matches!(first.poll_receive(&shared), Receive::Fetch));
    assert!(!shared.push_fetched(11, 0));
    match first.finish_fetch(&mut shared) {
        Fetched::Ready(v, _) => assert_eq!(v, Some(11)),
        Fetched::Pending => panic!("expected a value"),
    }
    // a new reader starts at the latest value
    let mut second = first.fork(&mut shared);
    assert_eq!(second.size_hint(&shared), (1, None));
    assert!(matches!(second.poll_receive(&shared), Receive::Ready(Some(11))));
    assert_eq!(second.size_hint(&shared), (0, None));
    let woken = first.insert(&mut shared, 12);
    assert!(woken.is_empty());
    second.wait(&mut shared);
    let woken = first.insert(&mut shared, 13);
    assert_eq!(woken, vec![1]);
    assert_eq!(second.size_hint(&shared), (2, None));
    assert!(matches!(second.poll_receive(&shared), Receive::Ready(Some(12))));
    assert!(matches!(second.poll_receive(&shared), Receive::Ready(Some(13))));
    assert!(matches!(second.finish_fetch(&mut shared), Fetched::Pending));
    let third = second.fork(&mut shared);
    assert_eq!(third.size_hint(&shared), (1, None));
}

#[test]
fn shared_stream_size_hint_wraps() {
    let (mut shared, reader): (SharedBuffer<u8>, SharedStream) = SharedStream::new(3, 1);
    reader.insert(&mut shared, 1);
    reader.insert(&mut shared, 2);
    reader.insert(&mut shared, 3);
    reader.insert(&mut shared, 4);
    // the writer is at slot 1; a new reader starts at slot 0, one value behind
    let r = reader.fork(&mut shared);
    assert_eq!(r.size_hint(&shared), (1, None));
    assert_eq!(shared.batch_size(), 1);
    let mut w = shared.wake_all();
    w.sort();
    assert!(w.is_empty());
    shared.push_waker(8);
    assert_eq!(shared.wake_all(), vec![8]);
}
