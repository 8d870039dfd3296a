use payments_toy_engine::event_store::{EventStore, StoreError};

#[test]
fn empty_store_holds_nothing() {
    let store: EventStore<u32> = EventStore::new();
    assert_eq!(store.stream_count(), 0);
    assert_eq!(store.version("Account-1"), 0);
    assert!(store.load("Account-1").is_none());
}

#[test]
fn append_then_load_gives_the_events_in_order() {
    let mut store: EventStore<u32> = EventStore::new();
    assert_eq!(store.append("a", 0, vec![1, 2]), Ok(()));
    assert_eq!(store.append("a", 2, vec![3]), Ok(()));
    assert_eq!(store.load("a"), Some(&vec![1, 2, 3]));
    assert_eq!(store.version("a"), 3);
}

#[test]
fn append_at_the_wrong_version_is_refused_and_changes_nothing() {
    let mut store: EventStore<u32> = EventStore::new();
    assert_eq!(store.append("a", 1, vec![1]), Err(StoreError::VersionConflict));
    assert!(store.load("a").is_none());
    assert_eq!(store.append("a", 0, vec![1]), Ok(()));
    assert_eq!(store.append("a", 0, vec![2]), Err(StoreError::VersionConflict));
    assert_eq!(store.append("a", 2, vec![2]), Err(StoreError::VersionConflict));
    assert_eq!(store.load("a"), Some(&vec![1]));
    assert_eq!(store.stream_count(), 1);
}

#[test]
fn streams_are_independent_and_keep_their_order_of_arrival() {
    let mut store: EventStore<u32> = EventStore::new();
    assert_eq!(store.append("b", 0, vec![10]), Ok(()));
    assert_eq!(store.append("a", 0, vec![20]), Ok(()));
    assert_eq!(store.append("b", 1, vec![11]), Ok(()));
    assert_eq!(store.load("a"), Some(&vec![20]));
    assert_eq!(store.load("b"), Some(&vec![10, 11]));
    assert_eq!(store.stream_count(), 2);
    assert_eq!(store.aggregate_id_at(0), "b");
    assert_eq!(store.aggregate_id_at(1), "a");
    assert_eq!(store.events_at(0), &vec![10, 11]);
    assert_eq!(store.events_at(1), &vec![20]);
}

#[test]
fn appending_nothing_makes_no_stream() {
    let mut store: EventStore<u32> = EventStore::new();
    assert_eq!(store.append("a", 0, vec![]), Ok(()));
    assert_eq!(store.stream_count(), 0);
    assert!(store.load("a").is_none());
    assert_eq!(store.append("a", 0, vec![5]), Ok(()));
    assert_eq!(store.append("a", 1, vec![]), Ok(()));
    assert_eq!(store.load("a"), Some(&vec![5]));
}
