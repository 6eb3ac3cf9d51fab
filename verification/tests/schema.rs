use pg_cdc::message::{CdcEvent, CdcMessage, Column, Tuple, TupleData};
use pg_cdc::model::{ColumnDef, DataType};
use pg_cdc::pipeline::{CdcState, PipelineState, RoundStart, PAUSE_POLL_MILLIS};
use pg_cdc::schema_cache::{SchemaCache, SchemaDelta};
use pg_cdc::types::pg_oid;

fn column(name: &str, type_id: u32, type_mod: i32, flags: u8) -> Column {
    Column { flags, name: name.to_string(), type_id, type_mod }
}

fn relation(table_id: u32, name: &str, columns: Vec<Column>) -> CdcMessage {
    CdcMessage::Relation {
        table_id,
        namespace: "public".to_string(),
        name: name.to_string(),
        columns,
    }
}

fn base_columns() -> Vec<Column> {
    vec![column("id", pg_oid::INT4, -1, 1), column("name", pg_oid::VARCHAR, 36, 0)]
}

fn insert(table_id: u32) -> CdcMessage {
    CdcMessage::Insert { table_id, tuple: Tuple { cols: vec![TupleData::Null] } }
}

#[test]
fn first_relation_is_no_delta() {
    let mut cache = SchemaCache::new();
    assert!(cache.get(7).is_none());
    assert_eq!(cache.update(&relation(7, "orders", base_columns())), None);
    assert_eq!(cache.get(7), Some(&base_columns()));
    assert!(cache.get(8).is_none());
    // Another table is first in its own right.
    assert_eq!(cache.update(&relation(8, "items", vec![])), None);
    assert_eq!(cache.get(8), Some(&vec![]));
    assert_eq!(cache.get(7), Some(&base_columns()));
}

#[test]
fn identical_relation_is_no_delta() {
    let mut cache = SchemaCache::new();
    assert_eq!(cache.update(&relation(7, "orders", base_columns())), None);
    assert_eq!(cache.update(&relation(7, "orders", base_columns())), None);
    assert_eq!(cache.update(&relation(7, "orders", base_columns())), None);
    assert_eq!(cache.get(7), Some(&base_columns()));
}

#[test]
fn one_added_column_is_reported() {
    let mut cache = SchemaCache::new();
    cache.update(&relation(7, "orders", base_columns()));
    let mut wider = base_columns();
    wider.push(column("price", pg_oid::NUMERIC, 655366, 0));
    let delta = cache.update(&relation(7, "orders", wider.clone())).unwrap();
    assert_eq!(delta.added_columns.len(), 1);
    assert!(delta.dropped_columns.is_empty());
    assert!(delta.changed_columns.is_empty());
    assert_eq!(
        delta,
        SchemaDelta {
            table_name: "orders".to_string(),
            added_columns: vec![ColumnDef::new(
                "price".to_string(),
                DataType::Decimal { precision: 10, scale: 2 },
                true
            )],
            dropped_columns: vec![],
            changed_columns: vec![],
        }
    );
    assert_eq!(cache.get(7), Some(&wider));
    // The new schema is now the known one.
    assert_eq!(cache.update(&relation(7, "orders", wider)), None);
}

#[test]
fn dropped_and_changed_columns_are_reported() {
    let mut cache = SchemaCache::new();
    let old = vec![
        column("id", pg_oid::INT4, -1, 1),
        column("name", pg_oid::VARCHAR, 36, 0),
        column("note", pg_oid::TEXT, -1, 0),
        column("amount", pg_oid::INT4, -1, 0),
        column("gone", pg_oid::BOOL, -1, 0),
    ];
    cache.update(&relation(7, "orders", old));
    let new = vec![
        column("key", pg_oid::UUID, -1, 1),
        column("amount", pg_oid::INT8, -1, 0),
        column("name", pg_oid::VARCHAR, 68, 0),
        column("id", pg_oid::INT4, -1, 0),
        column("extra", pg_oid::JSONB, -1, 0),
    ];
    let delta = cache.update(&relation(7, "orders_v2", new.clone())).unwrap();
    assert_eq!(
        delta,
        SchemaDelta {
            table_name: "orders_v2".to_string(),
            added_columns: vec![
                ColumnDef::new("key".to_string(), DataType::Uuid, false),
                ColumnDef::new("extra".to_string(), DataType::Jsonb, true),
            ],
            dropped_columns: vec!["note".to_string(), "gone".to_string()],
            changed_columns: vec![
                ("amount".to_string(), DataType::Int32, DataType::Int64),
                // A longer varchar is a change, though the logical type stays.
                ("name".to_string(), DataType::String, DataType::String),
            ],
        }
    );
    assert_eq!(cache.get(7), Some(&new));
}

#[test]
fn a_change_of_flags_or_order_alone_is_no_delta() {
    let mut cache = SchemaCache::new();
    cache.update(&relation(7, "orders", base_columns()));
    let reordered = vec![column("name", pg_oid::VARCHAR, 36, 1), column("id", pg_oid::INT4, -1, 0)];
    assert_eq!(cache.update(&relation(7, "renamed", reordered)), None);
    // Nothing was stored: the cache stays as it was.
    assert_eq!(cache.get(7), Some(&base_columns()));
}

#[test]
fn dropping_every_column_is_a_delta() {
    let mut cache = SchemaCache::new();
    cache.update(&relation(7, "orders", base_columns()));
    let delta = cache.update(&relation(7, "orders", vec![])).unwrap();
    assert!(delta.added_columns.is_empty());
    assert_eq!(delta.dropped_columns, vec!["id".to_string(), "name".to_string()]);
    assert!(delta.changed_columns.is_empty());
    assert_eq!(cache.get(7), Some(&vec![]));
}

#[test]
fn other_messages_leave_the_cache_alone() {
    let mut cache = SchemaCache::new();
    cache.update(&relation(7, "orders", base_columns()));
    let others = vec![
        CdcMessage::Begin { lsn: 1 },
        CdcMessage::Commit { lsn: 2 },
        insert(7),
        CdcMessage::Update { table_id: 7, tuple: Tuple { cols: vec![] } },
        CdcMessage::Delete { table_id: 9, tuple: Tuple { cols: vec![] } },
        CdcMessage::Truncate { table_ids: vec![7] },
    ];
    for msg in others {
        assert_eq!(cache.update(&msg), None);
    }
    assert_eq!(cache.get(7), Some(&base_columns()));
    assert!(cache.get(9).is_none());
}

fn events(lsns: &[u64]) -> Vec<CdcEvent> {
    lsns.iter().map(|&lsn| CdcEvent { lsn, message: insert(1) }).collect()
}

// Feeds the events to a pipeline, answers every flush with `sink_ok`, lets
// the timer tick once at the end, and hands back the positions forwarded
// as feedback and the sizes of the batches that went to the sink.
fn run(batch_size: usize, lsns: &[u64], sink_ok: bool) -> (Vec<u64>, Vec<(usize, u64)>) {
    let mut pipeline = PipelineState::new(batch_size);
    let mut forwarded = Vec::new();
    let mut flushed = Vec::new();
    for event in events(lsns) {
        let outcome = pipeline.on_event(event);
        if let Some(lsn) = outcome.flush {
            flushed.push((pipeline.batch().len(), lsn));
            if let Some(ack) = pipeline.flush_done(sink_ok) {
                forwarded.push(ack);
            }
        }
    }
    if let Some(lsn) = pipeline.pending_flush() {
        flushed.push((pipeline.batch().len(), lsn));
        if let Some(ack) = pipeline.flush_done(sink_ok) {
            forwarded.push(ack);
        }
    }
    assert!(pipeline.batch().is_empty());
    assert!(pipeline.pending_flush().is_none());
    (forwarded, flushed)
}

#[test]
fn failing_sink_forwards_no_position() {
    for n in 1usize..=5 {
        let lsns: Vec<u64> = (1..=(n as u64 + 1)).map(|i| i * 10).collect();
        let (forwarded, flushed) = run(n, &lsns, false);
        assert!(forwarded.is_empty());
        // The batches were handed to the sink all the same, and dropped.
        assert_eq!(flushed.len(), 2);
    }
    assert!(run(3, &[1, 2, 3, 4, 5, 6, 7, 8, 9, 10], false).0.is_empty());
}

#[test]
fn one_more_event_than_a_batch_forwards_two_positions() {
    for n in 1usize..=6 {
        let lsns: Vec<u64> = (1..=(n as u64 + 1)).map(|i| 100 + i).collect();
        let (forwarded, flushed) = run(n, &lsns, true);
        assert_eq!(forwarded.len(), (n + 1 + n - 1) / n);
        assert_eq!(forwarded, vec![100 + n as u64, 101 + n as u64]);
        assert_eq!(flushed, vec![(n, 100 + n as u64), (1, 101 + n as u64)]);
    }
}

#[test]
fn every_full_batch_forwards_the_position_of_its_last_event() {
    let lsns: Vec<u64> = (1..=10).map(|i| i * 7).collect();
    assert_eq!(run(3, &lsns, true).0, vec![21, 42, 63, 70]);
    assert_eq!(run(5, &lsns, true).0, vec![35, 70]);
    assert_eq!(run(10, &lsns, true).0, vec![70]);
    assert_eq!(run(11, &lsns, true).0, vec![70]);
    assert_eq!(run(1, &lsns, true).0, lsns);
    // A batch size of zero flushes after every event, as one does.
    assert_eq!(run(0, &lsns, true).0, lsns);
    assert_eq!(run(4, &[], true), (vec![], vec![]));
}

#[test]
fn pipeline_follows_the_events() {
    let mut pipeline = PipelineState::new(2);
    assert_eq!(pipeline.last_lsn(), 0);
    assert!(pipeline.batch().is_empty());
    assert!(pipeline.pending_flush().is_none());
    assert!(pipeline.schema_cache().get(7).is_none());

    let first = relation(7, "orders", base_columns());
    let outcome = pipeline.on_event(CdcEvent { lsn: 5, message: first.clone() });
    assert!(outcome.delta.is_none());
    assert!(outcome.flush.is_none());
    assert_eq!(pipeline.last_lsn(), 5);
    assert_eq!(pipeline.batch(), &vec![first.clone()]);
    assert_eq!(pipeline.pending_flush(), Some(5));
    assert_eq!(pipeline.schema_cache().get(7), Some(&base_columns()));

    let mut wider = base_columns();
    wider.push(column("price", pg_oid::FLOAT8, -1, 0));
    let second = relation(7, "orders", wider.clone());
    let outcome = pipeline.on_event(CdcEvent { lsn: 9, message: second.clone() });
    let delta = outcome.delta.unwrap();
    assert_eq!(delta.table_name, "orders");
    assert_eq!(
        delta.added_columns,
        vec![ColumnDef::new("price".to_string(), DataType::Float64, true)]
    );
    assert_eq!(outcome.flush, Some(9));
    assert_eq!(pipeline.batch(), &vec![first, second]);
    assert_eq!(pipeline.schema_cache().get(7), Some(&wider));

    // The sink fails: nothing to forward, and the batch is gone.
    assert_eq!(pipeline.flush_done(false), None);
    assert!(pipeline.batch().is_empty());
    assert_eq!(pipeline.last_lsn(), 9);
    assert_eq!(pipeline.schema_cache().get(7), Some(&wider));

    // A tick without pending messages asks for nothing.
    assert!(pipeline.pending_flush().is_none());

    let outcome = pipeline.on_event(CdcEvent { lsn: 12, message: insert(7) });
    assert!(outcome.delta.is_none() && outcome.flush.is_none());
    assert_eq!(pipeline.pending_flush(), Some(12));
    assert_eq!(pipeline.flush_done(true), Some(12));
    // A second answer without a new event reports the same position again.
    assert_eq!(pipeline.flush_done(true), Some(12));
}

#[test]
fn a_paused_pipeline_flushes_and_sleeps() {
    assert_eq!(PAUSE_POLL_MILLIS, 100);
    let mut pipeline = PipelineState::new(10);
    assert_eq!(pipeline.begin_round(None), RoundStart::Wait);
    assert_eq!(pipeline.begin_round(Some(CdcState::Running)), RoundStart::Wait);
    assert_eq!(
        pipeline.begin_round(Some(CdcState::Paused)),
        RoundStart::Pause { flush: None, sleep_millis: 100 }
    );
    pipeline.on_event(CdcEvent { lsn: 33, message: insert(1) });
    assert_eq!(pipeline.begin_round(None), RoundStart::Wait);
    assert_eq!(pipeline.begin_round(Some(CdcState::Running)), RoundStart::Wait);
    assert_eq!(
        pipeline.begin_round(Some(CdcState::Paused)),
        RoundStart::Pause { flush: Some(33), sleep_millis: 100 }
    );
    // Looking at the switch changes nothing.
    assert_eq!(pipeline.batch().len(), 1);
    assert_eq!(pipeline.flush_done(true), Some(33));
    assert_eq!(
        pipeline.begin_round(Some(CdcState::Paused)),
        RoundStart::Pause { flush: None, sleep_millis: 100 }
    );
}

#[test]
fn pipeline_ends_when_the_channel_is_closed() {
    // With a batch pending: it is flushed, and no round starts again.
    let mut pipeline = PipelineState::new(10);
    pipeline.on_event(CdcEvent { lsn: 41, message: insert(1) });
    pipeline.on_event(CdcEvent { lsn: 42, message: insert(1) });
    assert!(!pipeline.is_stopped());
    assert_eq!(pipeline.begin_round(None), RoundStart::Wait);
    assert_eq!(pipeline.on_channel_closed(), Some(42));
    assert!(pipeline.is_stopped());
    assert_eq!(pipeline.batch().len(), 2);
    assert_eq!(pipeline.flush_done(true), Some(42));
    assert!(pipeline.batch().is_empty());
    for switch in [None, Some(CdcState::Running), Some(CdcState::Paused)] {
        assert_eq!(pipeline.begin_round(switch), RoundStart::Stop);
    }
    // Nothing starts it again.
    assert_eq!(pipeline.on_channel_closed(), None);
    assert_eq!(pipeline.flush_done(false), None);
    assert!(pipeline.is_stopped());
    assert_eq!(pipeline.begin_round(None), RoundStart::Stop);

    // With nothing pending: nothing to flush.
    let mut idle = PipelineState::new(3);
    assert_eq!(idle.on_channel_closed(), None);
    assert_eq!(idle.begin_round(Some(CdcState::Running)), RoundStart::Stop);

    // A sink that fails at the end has nothing forwarded.
    let mut failing = PipelineState::new(3);
    failing.on_event(CdcEvent { lsn: 7, message: insert(1) });
    assert_eq!(failing.on_channel_closed(), Some(7));
    assert_eq!(failing.flush_done(false), None);
    assert_eq!(failing.begin_round(None), RoundStart::Stop);
}
