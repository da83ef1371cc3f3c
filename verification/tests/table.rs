//! The table in memory: rows keyed by the identifier of their record.

use climate::bigquery::loader::{DataLoader, LoaderConfig, Resolution, SubmitOutcome};
use climate::bigquery::schema::SchemaManager;
use climate::bigquery::table::MemoryTable;
use climate::bigquery::validate::ValidatedRecord;
use climate::datasources::record::ClimateRecord;
use climate::models::number::Float64;
use climate::models::value::FieldValue;
use climate::utils::retry::RetryPolicy;

const STAGING: &str = "staging_weather_observations";

fn number(x: f64) -> Float64 {
    Float64::from_bits(x.to_bits())
}

fn valid(minute: u32, temperature: f64, stamp: &str) -> ValidatedRecord {
    let record = ClimateRecord {
        source_id: "noaa_cdo".to_string(),
        timestamp: format!("2024-01-01T12:{:02}:00Z", minute),
        latitude: number(52.5),
        longitude: number(13.4),
        location_name: None,
        data: vec![("temperature_celsius".to_string(), FieldValue::Float(number(temperature)))],
    };
    SchemaManager::new().validate(&record, STAGING, stamp).unwrap()
}

fn loader_with(records: Vec<ValidatedRecord>) -> DataLoader {
    let limits = LoaderConfig {
        batch_size: 10,
        max_batch_bytes: 1_000_000,
        flush_interval_ms: 0,
        queue_capacity: 10,
        retry: RetryPolicy::standard(),
    };
    let mut loader = DataLoader::with_config(STAGING, limits).unwrap();
    assert!(loader.load_records(records, 0).is_empty());
    loader
}

#[test]
fn delivering_a_batch_twice_leaves_the_rows_of_once() {
    let records: Vec<ValidatedRecord> =
        (0..4).map(|m| valid(m, 1.0, "2024-01-03T08:00:00Z")).collect();
    let mut loader = loader_with(records.clone());
    let mut table = MemoryTable::new(STAGING);
    assert_eq!(table.table_name(), STAGING);

    let first = loader.next_batch(0, true).unwrap();
    assert!(matches!(table.insert_batch(&first), SubmitOutcome::Acknowledged(e) if e.is_empty()));
    assert_eq!(*table.rows(), records);

    assert!(matches!(
        loader.resolve(SubmitOutcome::Transient("the answer never arrived".to_string()), 0),
        Resolution::RetryAfter(_)
    ));
    let again = loader.current_batch().unwrap();
    assert_eq!(again.attempt(), 2);
    assert!(matches!(table.insert_batch(&again), SubmitOutcome::Acknowledged(e) if e.is_empty()));
    assert_eq!(*table.rows(), records);
    assert_eq!(table.len(), 4);
}

#[test]
fn a_row_whose_key_is_there_is_ignored() {
    let mut table = MemoryTable::new(STAGING);
    let early = valid(0, 1.0, "2024-01-03T08:00:00Z");
    let late = valid(0, 2.0, "2024-01-04T08:00:00Z");
    assert_eq!(early.record_id, late.record_id);
    let other = valid(1, 3.0, "2024-01-04T08:00:00Z");
    let mut loader = loader_with(vec![early.clone(), other.clone(), late, other.clone()]);
    let batch = loader.next_batch(0, true).unwrap();
    table.insert_batch(&batch);
    assert_eq!(*table.rows(), vec![early.clone(), other.clone()]);
    assert!(table.contains(&early.record_id));
    assert!(table.contains(&other.record_id));
    assert!(!table.contains("noaa_cdo"));
    assert!(!table.contains(""));
}

#[test]
fn a_batch_for_another_table_is_refused_for_good() {
    let mut table = MemoryTable::new("noaa_cdo");
    let mut loader = loader_with(vec![valid(0, 1.0, "2024-01-03T08:00:00Z")]);
    let batch = loader.next_batch(0, true).unwrap();
    match table.insert_batch(&batch) {
        SubmitOutcome::Permanent(reason) => assert_eq!(reason, "batch is for another table"),
        other => panic!("expected a refusal, got {:?}", other),
    }
    assert_eq!(table.len(), 0);
}
