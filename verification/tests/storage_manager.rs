use helium::storages::{Broadcast, Scope, StorageManager};
use helium::{Flow, FlowGroup, TopicToken};
use helium::token::{after_round, on_source, ReadStep, SourcePoll, SourceStep, TokenShared};

#[test]
fn manager_files_values_under_keys() {
    let mut m: StorageManager<String, Broadcast<String>> = StorageManager::new(Broadcast::new(4));
    assert!(m.get_item(0, 0).is_none());
    assert_eq!(m.get_prev_cursor(0), 0);
    assert_eq!(m.size_hint_with(0, 0), 0);
    m.new_stream(0, 1);
    m.new_stream(2, 3);
    let mut scope = Scope::new(&mut m);
    scope.insert(String::from("zero"));
    scope.insert_with(2, String::from("two"));
    scope.insert_with(7, String::from("seven"));
    let mut woken = scope.finish();
    woken.sort();
    assert_eq!(woken, vec![(0, 1), (2, 3)]);
    assert_eq!(m.get_item(2, 0), Some((&String::from("two"), 1)));
    assert_eq!(m.get_prev_cursor(2), 0);
    assert_eq!(m.size_hint_with(7, 0), 1);
    assert_eq!(m.registry_keys(), vec![0, 2]);
    assert_eq!(m.registry_len(), 2);
    assert!(m.register(2, 3));
    assert!(!m.register(2, 1));
}

#[test]
fn manager_with_key_moves_a_stream() {
    let mut m: StorageManager<u8, Broadcast<u8>> = StorageManager::new(Broadcast::new(4));
    m.new_stream(1, 5);
    {
        let mut scope = Scope::new(&mut m);
        scope.insert_with(3, 1);
        scope.insert_with(3, 2);
        let _ = scope.finish();
    }
    let cursor = m.with_key(1, 3, 5);
    assert_eq!(cursor, 1);
    assert_eq!(m.registry_keys(), vec![3]);
    m.drop_stream(3, 5);
    assert!(m.registry_keys().is_empty());
}

#[test]
fn token_reads_its_key() {
    let mut m: StorageManager<u32, Broadcast<u32>> = StorageManager::new(Broadcast::new(8));
    let mut shared = TokenShared::new();
    let first = TopicToken::first();
    m.new_stream(0, 0);
    {
        let mut scope = Scope::new(&mut m);
        scope.insert(1);
        scope.insert(2);
        let _ = scope.finish();
    }
    let mut second = first.fork(&mut shared, &mut m);
    // the fork starts at the latest value
    assert_eq!(second.next_item(&m), Some(&2));
    assert_eq!(second.next_item(&m), None);
    assert!(second.is_empty(&m) == false);
    assert!(second.register(&m));
    let mut third = second.with_key(&mut m, 4);
    assert!(third.next_item(&m).is_none());
    assert_eq!(third.size_hint(&m), (0, None));
    assert!(third.is_empty(&m));
    assert!(!third.release(&mut m, 3));
    assert_eq!(m.registry_keys(), vec![0]);
}

#[test]
fn token_steps() {
    assert!(matches!(on_source(SourcePoll::Item), SourceStep::Again));
    assert!(matches!(on_source(SourcePoll::Error), SourceStep::Error));
    assert!(matches!(on_source(SourcePoll::End), SourceStep::End));
    assert!(matches!(on_source(SourcePoll::Pending), SourceStep::Done));
    assert!(matches!(after_round(true), ReadStep::Retry));
    assert!(matches!(after_round(false), ReadStep::Wait));
    let mut shared = TokenShared::new();
    assert_eq!(shared.new_stream_id(), 1);
    assert_eq!(shared.new_stream_id(), 2);
}

#[test]
fn flow_refresh_sizes_groups() {
    let mut flow = Flow::new(2);
    let plan = flow.refresh(5);
    assert_eq!(plan.spawn, vec![0, 1, 2]);
    assert_eq!(plan.close, 0);
    let plan = flow.refresh(5);
    assert!(plan.spawn.is_empty());
    assert_eq!(plan.close, 0);
    let plan = flow.refresh(1);
    assert!(plan.spawn.is_empty());
    assert_eq!(plan.close, 2);
    let plan = flow.refresh(4);
    assert_eq!(plan.spawn, vec![1, 2]);
}

#[test]
fn flow_group_partition() {
    let g0 = FlowGroup::new(0, 2);
    let g1 = FlowGroup::new(1, 2);
    let keys = vec![10, 11, 12];
    // 3 keys, 2 per group: 2 groups
    let hashes = vec![4u64, 7, 9];
    assert_eq!(g0.select(&keys, &hashes), vec![10]);
    assert_eq!(g1.select(&keys, &hashes), vec![11, 12]);
    let (removing, adding) = g1.partition(&keys, &hashes, &vec![10, 11]);
    assert_eq!(removing, vec![10]);
    assert_eq!(adding, vec![12]);
}

#[test]
fn flow_group_difference_covers_registry() {
    let mut m: StorageManager<u8, Broadcast<u8>> = StorageManager::new(Broadcast::new(2));
    m.new_stream(1, 0);
    m.new_stream(2, 0);
    m.new_stream(3, 0);
    let groups: Vec<FlowGroup> = (0..2).map(|i| FlowGroup::new(i, 2)).collect();
    let mut all = vec![];
    for g in &groups {
        let (removing, adding) = g.difference(&m, &vec![]);
        assert!(removing.is_empty());
        all.extend(adding);
    }
    all.sort();
    assert_eq!(all, vec![1, 2, 3]);
}
