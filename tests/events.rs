use mysql_es::error::MysqlAggregateError;
use mysql_es::events::{EventData, EventStore, EventStream, SerializedEvent, Snapshot};

fn ev(name: &str) -> EventData {
    EventData {
        event_type: name.to_string(),
        payload: format!("{{\"{}\":{{}}}}", name),
        metadata: "{}".to_string(),
    }
}

fn sequences(events: &[SerializedEvent]) -> Vec<u64> {
    events.iter().map(|e| e.sequence).collect()
}

#[test]
fn new_stream_is_empty() {
    let s = EventStream::new();
    assert!(s.load().is_empty());
    assert_eq!(s.version(), 0);
    let (snap, tail) = s.load_from_snapshot();
    assert!(snap.is_none());
    assert!(tail.is_empty());
}

#[test]
fn append_at_current_version_extends_stream() {
    let mut s = EventStream::new();
    s.append(0, vec![ev("Created"), ev("Renamed")]).unwrap();
    s.append(2, vec![ev("Closed")]).unwrap();
    let events = s.load();
    assert_eq!(sequences(&events), vec![1, 2, 3]);
    assert_eq!(events[0].event_type, "Created");
    assert_eq!(events[1].event_type, "Renamed");
    assert_eq!(events[2].event_type, "Closed");
    assert_eq!(events[2].payload, "{\"Closed\":{}}");
    assert_eq!(events[2].metadata, "{}");
    assert_eq!(s.version(), 3);
}

#[test]
fn concurrent_appends_one_wins() {
    let mut s = EventStream::new();
    s.append(0, vec![ev("Created")]).unwrap();
    let first = s.append(1, vec![ev("A1"), ev("A2")]);
    let second = s.append(1, vec![ev("B1")]);
    assert_eq!(first, Ok(()));
    assert_eq!(second, Err(MysqlAggregateError::OptimisticLock));
    let events = s.load();
    assert_eq!(sequences(&events), vec![1, 2, 3]);
    assert!(events.iter().all(|e| e.event_type != "B1"));
}

#[test]
fn append_ahead_of_stream_is_refused() {
    let mut s = EventStream::new();
    let r = s.append(4, vec![ev("Created")]);
    assert_eq!(r, Err(MysqlAggregateError::OptimisticLock));
    assert!(s.load().is_empty());
}

#[test]
fn empty_batch_writes_nothing() {
    let mut s = EventStream::new();
    s.append(0, vec![ev("Created")]).unwrap();
    assert_eq!(s.append(0, vec![]), Ok(()));
    assert_eq!(s.load().len(), 1);
}

#[test]
fn snapshot_then_append_loads_tail() {
    let mut s = EventStream::new();
    s.append(0, vec![ev("A"), ev("B")]).unwrap();
    s.save_snapshot(2, "state@2".to_string());
    s.append(2, vec![ev("C"), ev("D")]).unwrap();
    let (snap, tail) = s.load_from_snapshot();
    assert_eq!(
        snap,
        Some(Snapshot {
            sequence: 2,
            state: "state@2".to_string()
        })
    );
    assert_eq!(sequences(&tail), vec![3, 4]);
    assert_eq!(tail[0].event_type, "C");
    assert_eq!(s.load().len(), 4);
}

#[test]
fn snapshot_is_replaced() {
    let mut s = EventStream::new();
    s.append(0, vec![ev("A"), ev("B"), ev("C")]).unwrap();
    s.save_snapshot(1, "one".to_string());
    s.save_snapshot(3, "three".to_string());
    let (snap, tail) = s.load_from_snapshot();
    assert_eq!(snap.unwrap().state, "three");
    assert!(tail.is_empty());
}

#[test]
fn store_keeps_instances_apart() {
    let mut store = EventStore::new();
    store.append("a-1", 0, vec![ev("Created"), ev("Renamed")]).unwrap();
    store.append("b-2", 0, vec![ev("Created")]).unwrap();
    assert_eq!(sequences(&store.load("a-1")), vec![1, 2]);
    assert_eq!(sequences(&store.load("b-2")), vec![1]);
    assert!(store.load("c-3").is_empty());
}

#[test]
fn store_concurrent_appends_one_wins() {
    let mut store = EventStore::new();
    store.append("agg", 0, vec![ev("Created")]).unwrap();
    assert_eq!(store.append("agg", 1, vec![ev("A")]), Ok(()));
    assert_eq!(
        store.append("agg", 1, vec![ev("B"), ev("C")]),
        Err(MysqlAggregateError::OptimisticLock)
    );
    let events = store.load("agg");
    assert_eq!(sequences(&events), vec![1, 2]);
    assert_eq!(events[1].event_type, "A");
}

#[test]
fn store_snapshot_consistency() {
    let mut store = EventStore::new();
    store.append("agg", 0, vec![ev("A"), ev("B"), ev("C")]).unwrap();
    store.save_snapshot("agg", 3, "folded".to_string());
    store.append("agg", 3, vec![ev("D"), ev("E")]).unwrap();
    let (snap, tail) = store.load_from_snapshot("agg");
    assert_eq!(
        snap,
        Some(Snapshot {
            sequence: 3,
            state: "folded".to_string()
        })
    );
    assert_eq!(sequences(&tail), vec![4, 5]);
    let (none, all) = store.load_from_snapshot("other");
    assert!(none.is_none());
    assert!(all.is_empty());
}
