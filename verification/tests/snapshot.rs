use caminus::json::number::JsonNumber;
use caminus::json::value::{JsonObject, JsonValue};
use caminus::snapshot::spooler::AsyncBackpressureSpooler;
use caminus::snapshot::watermark::WatermarkSnapshotter;
use caminus::source::{ChangeEvent, Operation, Timestamp};
use chrono::Utc;

fn now() -> Timestamp {
    let now = Utc::now();
    Timestamp { seconds: now.timestamp(), nanoseconds: now.timestamp_subsec_nanos() }
}

fn at(seconds: i64) -> Timestamp {
    Timestamp { seconds, nanoseconds: 0 }
}

fn text(s: &str) -> JsonValue {
    JsonValue::String(s.to_string())
}

fn number(n: u64) -> JsonValue {
    JsonValue::Number(JsonNumber::from_u64(n))
}

fn object(members: Vec<(&str, JsonValue)>) -> JsonValue {
    let mut object = JsonObject::new();
    for (key, value) in members {
        object.insert(key.to_string(), value);
    }
    JsonValue::Object(object)
}

fn row(id: u64, operation: Operation, seconds: i64, name: Option<&str>) -> ChangeEvent {
    ChangeEvent {
        id: format!("evt-{}-{}", id, seconds),
        source_database: "db".into(),
        source_table_or_collection: "users".into(),
        operation,
        timestamp: at(seconds),
        key: object(vec![("id", number(id))]),
        before: None,
        after: name.map(|name| object(vec![("name", text(name))])),
        transaction_id: None,
        offset: seconds.to_string(),
    }
}

fn marker(operation: Operation, transaction: Option<&str>) -> ChangeEvent {
    ChangeEvent {
        source_table_or_collection: "caminus_watermarks".into(),
        transaction_id: transaction.map(|t| t.to_string()),
        ..row(0, operation, 0, None)
    }
}

fn names(events: &[ChangeEvent]) -> Vec<String> {
    let mut names: Vec<String> = events
        .iter()
        .map(|event| {
            let after = event.after.as_ref().unwrap();
            after.get("name").unwrap().as_str().unwrap().to_string()
        })
        .collect();
    names.sort();
    names
}

#[test]
fn test_watermark_reconciliation() {
    let mut snapshotter = WatermarkSnapshotter::new();

    // 1. Prepare a chunk select result
    let chunk_event = ChangeEvent {
        id: "snap-1".into(),
        source_database: "db".into(),
        source_table_or_collection: "users".into(),
        operation: Operation::Snapshot,
        timestamp: now(),
        key: object(vec![("id", number(1))]),
        before: None,
        after: Some(object(vec![("id", number(1)), ("name", text("John"))])),
        transaction_id: None,
        offset: "0".into(),
    };
    snapshotter.load_chunk(vec![chunk_event]);

    // 2. Start of chunk select (low watermark event)
    let low_watermark = ChangeEvent {
        id: "wm-low".into(),
        source_database: "db".into(),
        source_table_or_collection: "caminus_watermarks".into(),
        operation: Operation::Create,
        timestamp: now(),
        key: object(vec![("wm_id", text("low-123"))]),
        before: None,
        after: None,
        transaction_id: Some("tx-watermark".into()),
        offset: "1".into(),
    };
    let out = snapshotter.process_replication_event(&low_watermark);
    assert!(out.is_none());
    assert!(snapshotter.is_in_window());

    // 3. User updates row 1 while chunk query is running
    let update_event = ChangeEvent {
        id: "pg-evt-2".into(),
        source_database: "db".into(),
        source_table_or_collection: "users".into(),
        operation: Operation::Update,
        timestamp: now(),
        key: object(vec![("id", number(1))]),
        before: None,
        after: Some(object(vec![("id", number(1)), ("name", text("John Updated"))])),
        transaction_id: Some("tx-user-update".into()),
        offset: "2".into(),
    };
    let out = snapshotter.process_replication_event(&update_event);
    assert!(out.is_some());

    // 4. End of chunk select (high watermark event)
    let high_watermark = ChangeEvent {
        id: "wm-high".into(),
        source_database: "db".into(),
        source_table_or_collection: "caminus_watermarks".into(),
        operation: Operation::Create,
        timestamp: now(),
        key: object(vec![("wm_id", text("high-123"))]),
        before: None,
        after: None,
        transaction_id: Some("tx-watermark".into()),
        offset: "3".into(),
    };
    let out = snapshotter.process_replication_event(&high_watermark);
    assert!(out.is_none());
    assert!(!snapshotter.is_in_window());

    // 5. Assert the snapshot chunk has reconciled "John" to "John Updated"
    let chunk_events = snapshotter.flush_chunk();
    assert_eq!(chunk_events.len(), 1);
    assert_eq!(
        chunk_events[0].after.as_ref().unwrap().get("name").unwrap().as_str().unwrap(),
        "John Updated"
    );
}

#[test]
fn test_async_backpressure_spooler() {
    let mut spooler = AsyncBackpressureSpooler::new(50);
    assert!(!spooler.should_spool());

    let event = ChangeEvent {
        id: "12345678901234567890".into(),
        source_database: "db".into(),
        source_table_or_collection: "users".into(),
        operation: Operation::Create,
        timestamp: now(),
        key: object(vec![("id", number(1))]),
        before: None,
        after: Some(object(vec![("id", number(1))])),
        transaction_id: None,
        offset: "12345678901234567890".into(),
    };

    spooler.push_event(event.clone());
    assert!(spooler.should_spool());
    assert_eq!(spooler.spooled_count(), 1);

    let popped = spooler.pop_event();
    assert!(popped.is_some());
    assert!(!spooler.should_spool());
    assert_eq!(spooler.spooled_count(), 0);
}

#[test]
fn a_new_snapshotter_is_idle_and_empty() {
    let mut snapshotter = WatermarkSnapshotter::new();
    assert!(!snapshotter.is_in_window());
    assert!(snapshotter.active_transaction().is_none());
    assert!(snapshotter.flush_chunk().is_empty());
}

#[test]
fn rows_are_handed_out_once() {
    let mut snapshotter = WatermarkSnapshotter::new();
    snapshotter.load_chunk(vec![
        row(1, Operation::Snapshot, 1, Some("a")),
        row(2, Operation::Snapshot, 1, Some("b")),
        row(3, Operation::Snapshot, 1, Some("c")),
    ]);
    assert_eq!(names(&snapshotter.flush_chunk()), ["a", "b", "c"]);
    assert!(snapshotter.flush_chunk().is_empty());
}

#[test]
fn of_several_rows_with_one_key_the_last_is_loaded() {
    let mut snapshotter = WatermarkSnapshotter::new();
    snapshotter.load_chunk(vec![
        row(1, Operation::Snapshot, 1, Some("a")),
        row(2, Operation::Snapshot, 2, Some("b")),
        row(1, Operation::Snapshot, 3, Some("c")),
    ]);
    assert_eq!(names(&snapshotter.flush_chunk()), ["b", "c"]);
}

#[test]
fn loading_replaces_the_chunk_and_keeps_the_window() {
    let mut snapshotter = WatermarkSnapshotter::new();
    snapshotter.load_chunk(vec![row(1, Operation::Snapshot, 1, Some("a"))]);
    snapshotter.process_replication_event(&marker(Operation::Commit, Some("tx")));
    snapshotter.load_chunk(vec![row(2, Operation::Snapshot, 1, Some("b"))]);
    assert!(snapshotter.is_in_window());
    assert_eq!(snapshotter.active_transaction().as_deref(), Some("tx"));
    assert_eq!(names(&snapshotter.flush_chunk()), ["b"]);
    assert!(snapshotter.is_in_window());
}

#[test]
fn only_created_and_committed_watermarks_are_markers() {
    let mut snapshotter = WatermarkSnapshotter::new();
    for operation in [Operation::Update, Operation::Delete, Operation::Snapshot] {
        assert!(snapshotter.process_replication_event(&marker(operation, Some("tx"))).is_none());
        assert!(!snapshotter.is_in_window());
    }
    assert!(snapshotter.process_replication_event(&marker(Operation::Commit, None)).is_none());
    assert!(snapshotter.is_in_window());
    assert!(snapshotter.active_transaction().is_none());
    snapshotter.process_replication_event(&marker(Operation::Create, Some("tx")));
    assert!(!snapshotter.is_in_window());
    assert!(snapshotter.active_transaction().is_none());
}

#[test]
fn an_empty_window_changes_nothing() {
    let mut snapshotter = WatermarkSnapshotter::new();
    snapshotter.load_chunk(vec![row(1, Operation::Snapshot, 1, Some("a"))]);
    snapshotter.process_replication_event(&marker(Operation::Create, Some("tx")));
    snapshotter.process_replication_event(&marker(Operation::Create, Some("tx")));
    assert!(!snapshotter.is_in_window());
    assert!(snapshotter.active_transaction().is_none());
    assert_eq!(names(&snapshotter.flush_chunk()), ["a"]);
}

#[test]
fn outside_of_the_window_the_chunk_is_left_alone() {
    let mut snapshotter = WatermarkSnapshotter::new();
    snapshotter.load_chunk(vec![row(1, Operation::Snapshot, 1, Some("a"))]);
    let delete = row(1, Operation::Delete, 2, None);
    let sent = snapshotter.process_replication_event(&delete).unwrap();
    assert_eq!(sent.id, "evt-1-2");
    assert_eq!(sent.operation, Operation::Delete);
    assert_eq!(names(&snapshotter.flush_chunk()), ["a"]);
}

#[test]
fn within_the_window_the_log_wins() {
    let mut snapshotter = WatermarkSnapshotter::new();
    snapshotter.load_chunk(vec![
        row(1, Operation::Snapshot, 1, Some("a")),
        row(2, Operation::Snapshot, 1, Some("b")),
        row(3, Operation::Snapshot, 1, Some("c")),
        row(4, Operation::Snapshot, 1, Some("d")),
    ]);
    snapshotter.process_replication_event(&marker(Operation::Create, Some("tx")));
    assert_eq!(snapshotter.active_transaction().as_deref(), Some("tx"));
    for event in [
        row(1, Operation::Update, 2, Some("a2")),
        row(1, Operation::Create, 3, Some("a3")),
        row(2, Operation::Delete, 4, None),
        row(2, Operation::Create, 5, Some("b5")),
        row(3, Operation::Commit, 6, Some("c6")),
        row(3, Operation::Snapshot, 7, Some("c7")),
        row(9, Operation::Create, 8, Some("z")),
    ] {
        let sent = snapshotter.process_replication_event(&event).unwrap();
        assert_eq!(sent.id, event.id);
    }
    snapshotter.process_replication_event(&marker(Operation::Create, Some("tx")));
    let rows = snapshotter.flush_chunk();
    assert_eq!(names(&rows), ["a3", "c", "d"]);
    let first = rows.iter().find(|row| row.id == "evt-1-1").unwrap();
    assert_eq!(first.timestamp, at(3));
    assert_eq!(first.operation, Operation::Snapshot);
    assert_eq!(first.offset, "1");
}

#[test]
fn an_update_without_a_state_empties_the_row() {
    let mut snapshotter = WatermarkSnapshotter::new();
    snapshotter.load_chunk(vec![row(1, Operation::Snapshot, 1, Some("a"))]);
    snapshotter.process_replication_event(&marker(Operation::Create, None));
    snapshotter.process_replication_event(&row(1, Operation::Update, 2, None));
    let rows = snapshotter.flush_chunk();
    assert_eq!(rows.len(), 1);
    assert!(rows[0].after.is_none());
}

#[test]
fn keys_are_told_apart_by_their_text() {
    let mut snapshotter = WatermarkSnapshotter::new();
    let by_text = ChangeEvent { key: text("1"), ..row(1, Operation::Snapshot, 1, Some("text")) };
    let by_number = ChangeEvent { key: number(1), ..row(1, Operation::Snapshot, 1, Some("number")) };
    snapshotter.load_chunk(vec![by_text, by_number]);
    snapshotter.process_replication_event(&marker(Operation::Create, None));
    let delete = ChangeEvent { key: number(1), ..row(1, Operation::Delete, 2, None) };
    snapshotter.process_replication_event(&delete);
    assert_eq!(names(&snapshotter.flush_chunk()), ["text"]);
}

#[test]
fn events_leave_the_spool_as_they_came() {
    let mut spooler = AsyncBackpressureSpooler::new(1000);
    for seconds in 1..6 {
        spooler.push_event(row(7, Operation::Create, seconds, None));
    }
    assert_eq!(spooler.spooled_count(), 5);
    for seconds in 1..6 {
        assert_eq!(spooler.pop_event().unwrap().id, format!("evt-7-{}", seconds));
    }
    assert!(spooler.pop_event().is_none());
    assert_eq!(spooler.spooled_bytes(), 0);
}

#[test]
fn the_spool_counts_bytes() {
    let mut spooler = AsyncBackpressureSpooler::new(40);
    let event = ChangeEvent { id: "né".into(), offset: "12".into(), ..row(1, Operation::Create, 1, None) };
    spooler.push_event(event.clone());
    assert_eq!(spooler.spooled_bytes(), 21);
    assert!(!spooler.should_spool());
    spooler.push_event(event);
    assert_eq!(spooler.spooled_bytes(), 42);
    assert!(spooler.should_spool());
    spooler.pop_event();
    assert_eq!(spooler.spooled_bytes(), 21);
    assert!(!spooler.should_spool());
}

#[test]
fn the_limit_itself_is_too_much() {
    assert!(AsyncBackpressureSpooler::new(0).should_spool());
    let mut spooler = AsyncBackpressureSpooler::new(18);
    spooler.push_event(ChangeEvent { id: "a".into(), offset: "b".into(), ..row(1, Operation::Create, 1, None) });
    assert!(spooler.should_spool());
}
