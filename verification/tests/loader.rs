//! The loader: queue, batches, retries and settlements.

use climate::bigquery::loader::{
    DataLoader, DeadLetter, Delivery, LoaderConfig, Resolution, RowError, SubmitOutcome,
};
use climate::bigquery::schema::SchemaManager;
use climate::bigquery::validate::ValidatedRecord;
use climate::datasources::record::ClimateRecord;
use climate::models::number::Float64;
use climate::models::value::FieldValue;
use climate::utils::error::ClimateError;
use climate::utils::retry::RetryPolicy;

const STAGING: &str = "staging_weather_observations";
const STAMP: &str = "2024-01-03T08:00:00Z";

fn number(x: f64) -> Float64 {
    Float64::from_bits(x.to_bits())
}

fn valid_for(table: &str, minute: u32) -> ValidatedRecord {
    let record = ClimateRecord {
        source_id: "noaa_cdo".to_string(),
        timestamp: format!("2024-01-01T12:{:02}:00Z", minute),
        latitude: number(52.5),
        longitude: number(13.4),
        location_name: None,
        data: vec![
            ("temperature_celsius".to_string(), FieldValue::Float(number(1.5))),
            ("station_id".to_string(), FieldValue::Text("S1".to_string())),
            ("datatype".to_string(), FieldValue::Text("TMAX".to_string())),
            ("value".to_string(), FieldValue::Float(number(1.5))),
        ],
    };
    SchemaManager::new().validate(&record, table, STAMP).unwrap()
}

fn valid(minute: u32) -> ValidatedRecord {
    valid_for(STAGING, minute)
}

fn config(batch_size: usize, queue_capacity: usize) -> LoaderConfig {
    LoaderConfig {
        batch_size,
        max_batch_bytes: 1_000_000,
        flush_interval_ms: 5_000,
        queue_capacity,
        retry: RetryPolicy { max_attempts: 3, base_delay_ms: 100, max_delay_ms: 1_000 },
    }
}

fn loader(batch_size: usize, queue_capacity: usize) -> DataLoader {
    DataLoader::with_config(STAGING, config(batch_size, queue_capacity)).unwrap()
}

fn timestamps(records: &[ValidatedRecord]) -> Vec<&str> {
    records.iter().map(|r| r.timestamp.as_str()).collect()
}

fn settled(resolution: Resolution) -> (Vec<ValidatedRecord>, Vec<DeadLetter>) {
    match resolution {
        Resolution::Settled { loaded, dead } => (loaded, dead),
        other => panic!("expected a settlement, got {:?}", other),
    }
}

#[test]
fn a_new_loader_has_the_standard_limits() {
    let loader = DataLoader::new();
    assert_eq!(loader.table_name(), STAGING);
    assert_eq!(
        loader.config(),
        LoaderConfig {
            batch_size: 500,
            max_batch_bytes: 5_000_000,
            flush_interval_ms: 5_000,
            queue_capacity: 1000,
            retry: RetryPolicy::standard(),
        }
    );
    assert!(loader.is_idle());
    assert!(loader.may_tear_down());
    assert!(!loader.is_cancelled());
    assert_eq!((loader.pending_count(), loader.in_flight_count()), (0, 0));
    assert!(loader.current_batch().is_none());
}

#[test]
fn limits_that_make_no_sense_are_refused() {
    let message = "batch size, queue capacity and attempts must be at least 1";
    for broken in [
        LoaderConfig { batch_size: 0, ..config(1, 1) },
        LoaderConfig { queue_capacity: 0, ..config(1, 1) },
        LoaderConfig {
            retry: RetryPolicy { max_attempts: 0, base_delay_ms: 1, max_delay_ms: 1 },
            ..config(1, 1)
        },
    ] {
        match DataLoader::with_config(STAGING, broken) {
            Err(error) => assert_eq!(error, ClimateError::ConfigError(message.to_string())),
            Ok(_) => panic!("accepted {:?}", broken),
        }
    }
    assert!(DataLoader::with_config("raw", config(1, 1)).is_ok());
}

#[test]
fn a_full_queue_hands_the_record_back() {
    let capacity = 4;
    let mut loader = loader(2, capacity);
    for minute in 0..capacity as u32 {
        assert!(loader.deliver(valid(minute), 10).is_accepted());
    }
    assert_eq!(loader.pending_count(), capacity);
    let extra = valid(59);
    match loader.deliver(extra.clone(), 11) {
        Delivery::Full(back) => assert_eq!(back, extra),
        other => panic!("expected a full queue, got {:?}", other),
    }
    assert_eq!(loader.pending_count(), capacity);

    let batch = loader.next_batch(12, false).unwrap();
    assert_eq!(batch.len(), 2);
    assert_eq!(loader.pending_count(), capacity);
    assert!(matches!(loader.deliver(extra.clone(), 13), Delivery::Full(_)));
    assert!(matches!(
        loader.resolve(SubmitOutcome::Transient("timeout".to_string()), 0),
        Resolution::RetryAfter(_)
    ));
    assert!(matches!(loader.deliver(extra.clone(), 14), Delivery::Full(_)));
    assert_eq!(loader.pending_count(), capacity);

    let (loaded, dead) = settled(loader.resolve(SubmitOutcome::Acknowledged(vec![]), 0));
    assert_eq!((loaded.len(), dead.len()), (2, 0));
    assert_eq!(loader.pending_count(), 2);
    assert!(loader.deliver(extra.clone(), 15).is_accepted());
    assert!(loader.deliver(valid(58), 15).is_accepted());
    assert!(matches!(loader.deliver(valid(57), 15), Delivery::Full(_)));
    assert_eq!(loader.pending_count(), capacity);
}

#[test]
fn load_records_takes_what_fits_and_returns_the_rest_in_order() {
    let mut loader = loader(10, 3);
    let records: Vec<ValidatedRecord> = (0..5).map(valid).collect();
    let rest = loader.load_records(records.clone(), 0);
    assert_eq!(rest, records[3..].to_vec());
    assert_eq!(loader.pending_count(), 3);
    let batch = loader.next_batch(0, true).unwrap();
    assert_eq!(*batch.records(), records[..3].to_vec());
    let again = loader.load_records(rest.clone(), 1);
    assert_eq!(again, rest);
    settled(loader.resolve(SubmitOutcome::Acknowledged(vec![]), 0));
    assert!(loader.load_records(rest, 2).is_empty());
    assert_eq!(loader.pending_count(), 2);
    assert!(loader.load_records(vec![], 3).is_empty());
}

#[test]
fn a_record_for_another_table_is_handed_back() {
    let mut loader = loader(10, 10);
    let foreign = valid_for("noaa_cdo", 1);
    match loader.deliver(foreign.clone(), 0) {
        Delivery::WrongTable(back) => assert_eq!(back, foreign),
        other => panic!("expected a refusal, got {:?}", other),
    }
    assert!(loader.is_idle());
    let rest = loader.load_records(vec![valid(0), foreign.clone(), valid(2)], 0);
    assert_eq!(timestamps(&rest), vec!["2024-01-01T12:01:00Z", "2024-01-01T12:02:00Z"]);
    assert_eq!(loader.pending_count(), 1);
}

#[test]
fn a_batch_is_due_when_it_is_full() {
    let mut loader = loader(3, 10);
    assert!(loader.next_batch(0, false).is_none());
    assert!(loader.next_batch(0, true).is_none());
    loader.deliver(valid(0), 0);
    loader.deliver(valid(1), 0);
    assert!(loader.next_batch(1, false).is_none());
    loader.deliver(valid(2), 0);
    loader.deliver(valid(3), 0);
    let batch = loader.next_batch(1, false).unwrap();
    assert_eq!(
        timestamps(batch.records()),
        vec!["2024-01-01T12:00:00Z", "2024-01-01T12:01:00Z", "2024-01-01T12:02:00Z"]
    );
    assert_eq!((loader.pending_count(), loader.in_flight_count()), (4, 3));
    assert!(!loader.may_tear_down());
    assert!(loader.next_batch(2, true).is_none());
    settled(loader.resolve(SubmitOutcome::Acknowledged(vec![]), 0));
    assert_eq!((loader.pending_count(), loader.in_flight_count()), (1, 0));
    assert!(loader.next_batch(3, false).is_none());
}

#[test]
fn a_batch_is_due_when_the_oldest_record_has_waited() {
    let mut loader = loader(10, 10);
    loader.deliver(valid(0), 1_000);
    loader.deliver(valid(1), 4_000);
    assert!(loader.next_batch(5_999, false).is_none());
    assert!(loader.next_batch(500, false).is_none());
    let batch = loader.next_batch(6_000, false).unwrap();
    assert_eq!(batch.len(), 2);
    settled(loader.resolve(SubmitOutcome::Acknowledged(vec![]), 0));
    loader.deliver(valid(2), 7_000);
    assert!(loader.next_batch(11_999, false).is_none());
    assert!(loader.next_batch(12_000, false).is_some());
}

#[test]
fn a_batch_is_due_and_bounded_by_bytes() {
    let size = valid(0).size_bytes();
    assert!(size > 100);
    let limits = LoaderConfig { max_batch_bytes: 2 * size + 1, ..config(10, 10) };
    let mut loader = DataLoader::with_config(STAGING, limits).unwrap();
    loader.deliver(valid(0), 0);
    loader.deliver(valid(1), 0);
    assert!(loader.next_batch(0, false).is_none());
    loader.deliver(valid(2), 0);
    let batch = loader.next_batch(0, false).unwrap();
    assert_eq!(batch.len(), 2);
    settled(loader.resolve(SubmitOutcome::Acknowledged(vec![]), 0));
    assert_eq!(loader.pending_count(), 1);

    let tight = LoaderConfig { max_batch_bytes: 1, ..config(10, 10) };
    let mut loader = DataLoader::with_config(STAGING, tight).unwrap();
    loader.deliver(valid(0), 0);
    loader.deliver(valid(1), 0);
    let batch = loader.next_batch(0, false).unwrap();
    assert_eq!(batch.len(), 1);
}

#[test]
fn the_size_of_a_record_counts_names_and_values() {
    let mut record = valid(0);
    record.row = vec![];
    assert_eq!(record.size_bytes(), 0);
    record.row = vec![
        ("a".to_string(), FieldValue::Null),
        ("bc".to_string(), FieldValue::Bool(true)),
        ("def".to_string(), FieldValue::Integer(7)),
        ("ghij".to_string(), FieldValue::Float(number(1.0))),
        ("klmno".to_string(), FieldValue::Text("añ😀".to_string())),
    ];
    assert_eq!(record.size_bytes(), (1 + 4) + (2 + 5) + (3 + 8) + (4 + 8) + (5 + 7));
}

#[test]
fn streaming_makes_the_next_batch_due_at_once() {
    let mut loader = loader(10, 10);
    loader.deliver(valid(0), 0);
    assert!(loader.next_batch(0, false).is_none());
    assert!(loader.load_streaming(valid(1), 0).is_accepted());
    let batch = loader.next_batch(0, false).unwrap();
    assert_eq!(batch.len(), 2);
    settled(loader.resolve(SubmitOutcome::Acknowledged(vec![]), 0));
    loader.deliver(valid(2), 1);
    assert!(loader.next_batch(1, false).is_none());

    let mut small = DataLoader::with_config(STAGING, config(1, 2)).unwrap();
    assert!(small.load_streaming(valid(0), 0).is_accepted());
    assert!(small.load_streaming(valid(1), 0).is_accepted());
    match small.load_streaming(valid(2), 0) {
        Delivery::Full(back) => assert_eq!(back, valid(2)),
        other => panic!("expected a full queue, got {:?}", other),
    }
    assert_eq!(small.next_batch(0, false).unwrap().len(), 1);
    settled(small.resolve(SubmitOutcome::Acknowledged(vec![]), 0));
    assert_eq!(small.next_batch(0, false).unwrap().len(), 1);
}

#[test]
fn a_failure_that_may_pass_is_tried_again_with_growing_delays() {
    let mut loader = loader(2, 10);
    loader.load_records(vec![valid(0), valid(1), valid(2)], 0);
    let first = loader.next_batch(0, false).unwrap();
    assert_eq!(first.attempt(), 1);
    match loader.resolve(SubmitOutcome::Transient("timeout".to_string()), 0) {
        Resolution::RetryAfter(delay) => assert_eq!(delay, 50),
        other => panic!("expected a retry, got {:?}", other),
    }
    let second = loader.current_batch().unwrap();
    assert_eq!(second.attempt(), 2);
    assert_eq!(second.records(), first.records());
    assert_eq!(second.table_name(), first.table_name());
    match loader.resolve(SubmitOutcome::Transient("503".to_string()), 60) {
        Resolution::RetryAfter(delay) => assert_eq!(delay, 100 + 60),
        other => panic!("expected a retry, got {:?}", other),
    }
    assert_eq!(loader.current_batch().unwrap().attempt(), 3);
    let (loaded, dead) = settled(loader.resolve(SubmitOutcome::Transient("quota".to_string()), 0));
    assert!(loaded.is_empty());
    assert_eq!(
        dead,
        vec![
            DeadLetter { record: valid(0), error: ClimateError::BigQueryError("quota".to_string()) },
            DeadLetter { record: valid(1), error: ClimateError::BigQueryError("quota".to_string()) },
        ]
    );
    assert_eq!((loader.pending_count(), loader.in_flight_count()), (1, 0));
    assert!(loader.current_batch().is_none());
    let next = loader.next_batch(0, true).unwrap();
    assert_eq!(next.attempt(), 1);
    assert_eq!(timestamps(next.records()), vec!["2024-01-01T12:02:00Z"]);
}

#[test]
fn a_retry_can_succeed() {
    let mut loader = loader(2, 10);
    loader.load_records(vec![valid(0), valid(1)], 0);
    loader.next_batch(0, false).unwrap();
    loader.resolve(SubmitOutcome::Transient("timeout".to_string()), 0);
    let (loaded, dead) = settled(loader.resolve(SubmitOutcome::Acknowledged(vec![]), 0));
    assert_eq!(loaded, vec![valid(0), valid(1)]);
    assert!(dead.is_empty());
    assert!(loader.is_idle());
}

#[test]
fn a_failure_for_good_gives_the_batch_up_at_once() {
    let mut loader = loader(2, 10);
    loader.load_records(vec![valid(0), valid(1)], 0);
    loader.next_batch(0, false).unwrap();
    let (loaded, dead) =
        settled(loader.resolve(SubmitOutcome::Permanent("no such table".to_string()), 0));
    assert!(loaded.is_empty());
    assert_eq!(dead.len(), 2);
    assert!(dead
        .iter()
        .all(|d| d.error == ClimateError::BigQueryError("no such table".to_string())));
    assert_eq!(dead[0].record, valid(0));
    assert_eq!(dead[1].record, valid(1));
    assert!(loader.is_idle());
}

#[test]
fn rows_that_the_warehouse_names_are_given_up_and_the_rest_loaded() {
    let mut loader = loader(5, 10);
    loader.load_records((0..5).map(valid).collect(), 0);
    loader.next_batch(0, false).unwrap();
    let errors = vec![
        RowError { index: 3, reason: "bad timestamp".to_string() },
        RowError { index: 1, reason: "first reason".to_string() },
        RowError { index: 9, reason: "no such row".to_string() },
        RowError { index: 1, reason: "last reason".to_string() },
    ];
    let (loaded, dead) = settled(loader.resolve(SubmitOutcome::Acknowledged(errors), 0));
    assert_eq!(loaded, vec![valid(0), valid(2), valid(4)]);
    assert_eq!(
        dead,
        vec![
            DeadLetter {
                record: valid(1),
                error: ClimateError::BigQueryError("last reason".to_string()),
            },
            DeadLetter {
                record: valid(3),
                error: ClimateError::BigQueryError("bad timestamp".to_string()),
            },
        ]
    );
    assert!(loader.is_idle());
}

#[test]
fn an_outcome_without_a_batch_changes_nothing() {
    let mut loader = loader(5, 10);
    loader.deliver(valid(0), 0);
    assert!(matches!(loader.resolve(SubmitOutcome::Acknowledged(vec![]), 0), Resolution::Idle));
    assert!(matches!(
        loader.resolve(SubmitOutcome::Permanent("x".to_string()), 0),
        Resolution::Idle
    ));
    assert_eq!(loader.pending_count(), 1);
}

#[test]
fn cancellation_hands_back_what_was_not_sent_and_waits_for_what_was() {
    let mut loader = loader(2, 10);
    loader.load_records((0..5).map(valid).collect(), 0);
    loader.next_batch(0, false).unwrap();
    let unsent = loader.cancel();
    assert_eq!(unsent, vec![valid(2), valid(3), valid(4)]);
    assert!(loader.is_cancelled());
    assert!(!loader.may_tear_down());
    assert_eq!((loader.pending_count(), loader.in_flight_count()), (2, 2));
    match loader.deliver(valid(9), 1) {
        Delivery::Closed(back) => assert_eq!(back, valid(9)),
        other => panic!("expected a closed loader, got {:?}", other),
    }
    assert_eq!(loader.load_records(vec![valid(9)], 1), vec![valid(9)]);
    assert!(loader.next_batch(1, true).is_none());
    assert_eq!(loader.current_batch().unwrap().len(), 2);
    let (loaded, dead) = settled(loader.resolve(SubmitOutcome::Acknowledged(vec![]), 0));
    assert_eq!((loaded.len(), dead.len()), (2, 0));
    assert!(loader.may_tear_down());
    assert!(loader.is_idle());
    assert!(loader.next_batch(2, true).is_none());
    assert!(loader.cancel().is_empty());
}
