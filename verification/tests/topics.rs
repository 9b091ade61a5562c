use helium::stream::{MultipleStream, RoundStep, StreamShared};
use helium::storages::{Disperse, Storage};
use helium::{TopicManager, TopicState};

#[test]
fn topic_table_creates_once() {
    let mut m: TopicManager<u32, &str> = TopicManager::new(37);
    assert_eq!(*m.store(), 37);
    let id = String::from("Interval·1s");
    assert!(matches!(m.state(&id), TopicState::Absent));
    assert!(m.reserve(id.clone()));
    assert!(matches!(m.state(&id), TopicState::Creating));
    // a second caller finds the slot taken
    assert!(!m.reserve(id.clone()));
    m.publish(id.clone(), "token");
    assert!(matches!(m.state(&id), TopicState::Ready(&"token")));
    assert_eq!(m.topic_ids(), vec![id.clone()]);
    assert_eq!(m.remove(&id), Some(Some("token")));
    assert_eq!(m.remove(&id), None);
    assert!(matches!(m.state(&id), TopicState::Absent));
}

#[test]
fn topic_table_keeps_topics_apart() {
    let mut m: TopicManager<(), u8> = TopicManager::new(());
    m.publish(String::from("a"), 1);
    m.publish(String::from("b"), 2);
    m.publish(String::from("a"), 3);
    assert!(matches!(m.state(&String::from("a")), TopicState::Ready(&3)));
    assert!(matches!(m.state(&String::from("b")), TopicState::Ready(&2)));
    let mut ids = m.topic_ids();
    ids.sort();
    assert_eq!(ids, vec![String::from("a"), String::from("b")]);
}

#[test]
fn multiple_stream_rounds() {
    let mut shared = StreamShared::new();
    let mut storage: Disperse<u8> = Disperse::new(4);
    storage.insert(0, 1);
    let mut first = MultipleStream::new();
    assert_eq!(first.next_item(&storage), Some(&1));
    assert_eq!(first.next_item(&storage), None);
    let second = first.fork(&mut shared, &storage);
    assert_eq!(second.size_hint(&storage), (1, None));
    second.wait(&mut shared);
    let (step, woken) = first.after_round(&mut shared, 0);
    assert!(matches!(step, RoundStep::Wait));
    assert!(woken.is_empty());
    let (step, woken) = first.after_round(&mut shared, 2);
    assert!(matches!(step, RoundStep::Retry));
    assert_eq!(woken, vec![1]);
    let third = second.fork(&mut shared, &storage);
    third.with_key(&mut storage, 5);
    assert_eq!(third.size_hint(&storage), (0, None));
    assert_eq!(shared.new_stream_id(), 3);
}
