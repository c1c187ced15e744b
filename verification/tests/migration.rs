use post_migrate::pipeline::plan_migration;
use post_migrate::record::{Record, SourceRow};
use std::collections::HashMap;

fn row(identifier: u32, date_text: &str, content: &str, title: &str) -> SourceRow {
    SourceRow {
        identifier,
        date_text: date_text.to_string(),
        content: content.to_string(),
        title: title.to_string(),
    }
}

/// Apply the planned writes in order, as the store does: a later write to
/// the same key replaces the earlier one.
fn replay(writes: &[post_migrate::load::WriteOp]) -> HashMap<Vec<u8>, Vec<u8>> {
    let mut store = HashMap::new();
    for op in writes {
        store.insert(op.key.clone(), op.value.clone());
    }
    store
}

#[test]
fn well_formed_row_scenario() {
    let plan = plan_migration(vec![vec![row(7, "2020-05-01 10:00:00", "hello", "t")]]);
    assert_eq!(plan.records.len(), 1);
    assert_eq!(plan.diagnostics.len(), 0);
    assert_eq!(plan.writes.len(), 1);
    assert_eq!(plan.records[0].identifier, 7);
    assert_eq!(plan.records[0].timestamp, 1588327200);
    assert_eq!(plan.writes[0].key, 1588327200i64.to_le_bytes().to_vec());
    assert_eq!(plan.writes[0].value, b"hello".to_vec());
    let store = replay(&plan.writes);
    assert_eq!(
        store.get(&1588327200i64.to_le_bytes().to_vec()),
        Some(&b"hello".to_vec())
    );
}

#[test]
fn malformed_row_scenario() {
    let plan = plan_migration(vec![vec![row(9, "not-a-date", "x", "bad")]]);
    assert_eq!(plan.records.len(), 1);
    assert_eq!(plan.diagnostics.len(), 1);
    assert_eq!(plan.diagnostics[0].raw_date_text, "not-a-date");
    assert_eq!(plan.diagnostics[0].title, "bad");
    assert_eq!(plan.records[0].timestamp, 0);
    assert_eq!(plan.writes[0].key, 0i64.to_le_bytes().to_vec());
    let store = replay(&plan.writes);
    assert_eq!(store.get(&0i64.to_le_bytes().to_vec()), Some(&b"x".to_vec()));
}

#[test]
fn last_write_wins_on_colliding_timestamps() {
    let plan = plan_migration(vec![vec![
        row(1, "2020-05-01 10:00:00", "first", "a"),
        row(2, "2020-05-01 10:00:00", "second", "b"),
    ]]);
    assert_eq!(plan.writes.len(), 2);
    let store = replay(&plan.writes);
    assert_eq!(store.len(), 1);
    assert_eq!(
        store.get(&1588327200i64.to_le_bytes().to_vec()),
        Some(&b"second".to_vec())
    );
}

#[test]
fn malformed_rows_are_migrated_not_dropped() {
    let plan = plan_migration(vec![vec![
        row(1, "2020-05-01 10:00:00", "good one", "a"),
        row(2, "junk", "kept anyway", "b"),
        row(3, "2020-05-02 10:00:00", "good two", "c"),
        row(4, "also junk", "kept too", "d"),
    ]]);
    assert_eq!(plan.records.len(), 4);
    assert_eq!(plan.writes.len(), 4);
    assert_eq!(plan.diagnostics.len(), 2);
    assert_eq!(plan.diagnostics[0].raw_date_text, "junk");
    assert_eq!(plan.diagnostics[1].raw_date_text, "also junk");
    // the two malformed rows collide on the sentinel key: the later wins
    let store = replay(&plan.writes);
    assert_eq!(store.len(), 3);
    assert_eq!(
        store.get(&0i64.to_le_bytes().to_vec()),
        Some(&b"kept too".to_vec())
    );
}

#[test]
fn multi_table_order_is_kept() {
    let a1 = row(1, "2001-01-01 00:00:00", "a1", "");
    let a2 = row(2, "2002-01-01 00:00:00", "a2", "");
    let b1 = row(3, "2003-01-01 00:00:00", "b1", "");
    let plan = plan_migration(vec![vec![a1, a2], vec![b1]]);
    let ids: Vec<u32> = plan.records.iter().map(|r: &Record| r.identifier).collect();
    assert_eq!(ids, vec![1, 2, 3]);
    let values: Vec<&[u8]> = plan.writes.iter().map(|w| w.value.as_slice()).collect();
    assert_eq!(values, vec![b"a1".as_slice(), b"a2".as_slice(), b"b1".as_slice()]);
}

#[test]
fn record_keeps_raw_text_verbatim() {
    let plan = plan_migration(vec![vec![row(5, "2020-05-01 10:00:00", "c", "t")]]);
    assert_eq!(plan.records[0].raw_date_text, "2020-05-01 10:00:00");
    assert_eq!(plan.records[0].title, "t");
    assert_eq!(plan.records[0].content, "c");
}

#[test]
fn empty_input_plans_nothing() {
    let plan = plan_migration(vec![]);
    assert_eq!(plan.records.len(), 0);
    assert_eq!(plan.diagnostics.len(), 0);
    assert_eq!(plan.writes.len(), 0);
    let plan = plan_migration(vec![vec![], vec![]]);
    assert_eq!(plan.records.len(), 0);
    assert_eq!(plan.writes.len(), 0);
}
