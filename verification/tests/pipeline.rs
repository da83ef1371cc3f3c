//! Whole runs, driven against a table held in memory.

use climate::bigquery::loader::{DataLoader, LoaderConfig, Resolution, SubmitOutcome};
use climate::bigquery::schema::SchemaManager;
use climate::bigquery::table::MemoryTable;
use climate::datasources::fetch::{FetchAction, PageOutcome};
use climate::datasources::nasa_power::NasaPowerClient;
use climate::datasources::noaa_cdo::NoaaCdoClient;
use climate::datasources::record::ClimateRecord;
use climate::datasources::source::DataSource;
use climate::models::number::Float64;
use climate::models::value::FieldValue;
use climate::pipeline::orchestrator::{validate_all, Orchestrator};
use climate::pipeline::report::SourceReport;
use climate::utils::error::{ClimateError, RejectReason};
use climate::utils::retry::RetryPolicy;

const STAGING: &str = "staging_weather_observations";
const STAMP: &str = "2024-01-03T08:00:00Z";

fn number(x: f64) -> Float64 {
    Float64::from_bits(x.to_bits())
}

fn observation(source: &str, day: u32, latitude: f64, temperature: f64) -> ClimateRecord {
    ClimateRecord {
        source_id: source.to_string(),
        timestamp: format!("2024-01-{:02}T12:00:00Z", day),
        latitude: number(latitude),
        longitude: number(13.4),
        location_name: Some("Berlin".to_string()),
        data: vec![
            ("temperature_celsius".to_string(), FieldValue::Float(number(temperature))),
            ("internal_note".to_string(), FieldValue::Text("not a column".to_string())),
        ],
    }
}

fn config(batch_size: usize) -> LoaderConfig {
    LoaderConfig {
        batch_size,
        max_batch_bytes: 1_000_000,
        flush_interval_ms: 60_000,
        queue_capacity: 100,
        retry: RetryPolicy::standard(),
    }
}

fn fetch_three(source: &dyn DataSourceNames, first_latitude: f64) -> Vec<ClimateRecord> {
    let name = source.name_of();
    vec![
        observation(&name, 1, first_latitude, 1.5),
        observation(&name, 1, first_latitude + 1.0, 2.5),
        observation(&name, 2, first_latitude, 3.5),
    ]
}

trait DataSourceNames {
    fn name_of(&self) -> String;
}

impl DataSourceNames for NoaaCdoClient {
    fn name_of(&self) -> String {
        self.source_name().to_string()
    }
}

impl DataSourceNames for NasaPowerClient {
    fn name_of(&self) -> String {
        self.source_name().to_string()
    }
}

#[test]
fn end_to_end_two_sources_one_batch() {
    let noaa = NoaaCdoClient::new(Some("key".to_string())).unwrap();
    let nasa = NasaPowerClient::new().unwrap();
    let manager = SchemaManager::new();
    let schema = manager.schema_for(STAGING).unwrap();
    let mut orchestrator =
        Orchestrator::new(vec!["noaa_cdo".to_string(), "nasa_power".to_string()], 2).unwrap();
    let mut loader = DataLoader::with_config(STAGING, config(10)).unwrap();
    let mut table = MemoryTable::new(STAGING);

    assert_eq!(orchestrator.start_next().as_deref(), Some("noaa_cdo"));
    assert_eq!(orchestrator.start_next().as_deref(), Some("nasa_power"));
    assert_eq!(orchestrator.start_next(), None);

    let mut noaa_session = noaa.fetch_data("2024-01-01", "2024-01-02").unwrap();
    assert_eq!(noaa_session.current_action(), FetchAction::Request { page: 0 });
    let action = noaa_session
        .step(PageOutcome::Page { records: fetch_three(&noaa, 52.5), last: true }, 0);
    assert_eq!(action, FetchAction::Done);
    let fetched = noaa_session.finish();
    assert!(fetched.error.is_none());
    let mut noaa_tally = SourceReport::new("noaa_cdo");
    let valid = validate_all(schema, &fetched.records, STAMP, &mut noaa_tally);
    assert_eq!(valid.len(), 3);
    assert!(loader.load_records(valid, 1_000).is_empty());
    assert!(orchestrator.finish(noaa_tally));

    let mut nasa_session = nasa.fetch_data("2024-01-01", "2024-01-02").unwrap();
    let action = nasa_session
        .step(PageOutcome::Page { records: fetch_three(&nasa, 48.1), last: true }, 0);
    assert_eq!(action, FetchAction::Done);
    let fetched = nasa_session.finish();
    let mut nasa_tally = SourceReport::new("nasa_power");
    let valid = validate_all(schema, &fetched.records, STAMP, &mut nasa_tally);
    assert_eq!(valid.len(), 3);
    assert!(loader.load_records(valid, 1_100).is_empty());
    assert!(orchestrator.finish(nasa_tally));

    assert!(!orchestrator.is_complete(loader.is_idle()));
    assert!(loader.next_batch(1_200, false).is_none());
    let batch = loader.next_batch(1_200, true).unwrap();
    assert_eq!(batch.len(), 6);
    assert_eq!(batch.table_name(), STAGING);
    assert_eq!(batch.attempt(), 1);
    assert!(loader.next_batch(1_300, true).is_none());

    let outcome = table.insert_batch(&batch);
    assert!(matches!(&outcome, SubmitOutcome::Acknowledged(errors) if errors.is_empty()));
    match loader.resolve(outcome, 0) {
        Resolution::Settled { loaded, dead } => {
            assert_eq!(loaded.len(), 6);
            assert!(dead.is_empty());
            orchestrator.record_settlement(&loaded, &dead);
        },
        other => panic!("unexpected resolution: {:?}", other),
    }
    assert_eq!(table.len(), 6);
    assert!(loader.is_idle());
    assert!(orchestrator.is_complete(loader.is_idle()));

    let report = orchestrator.into_report();
    assert!(report.is_clean());
    assert_eq!(report.sources().len(), 2);
    for name in ["noaa_cdo", "nasa_power"] {
        let entry = report.entry(name).unwrap();
        assert_eq!(
            (entry.fetched, entry.validated, entry.rejected, entry.loaded, entry.failed),
            (3, 3, 0, 3, 0)
        );
        assert!(!entry.window_failed);
        assert!(entry.errors.is_empty());
    }
}

#[test]
fn failed_source_does_not_touch_its_sibling() {
    let manager = SchemaManager::new();
    let schema = manager.schema_for(STAGING).unwrap();
    let mut orchestrator =
        Orchestrator::new(vec!["noaa_cdo".to_string(), "nasa_power".to_string()], 2).unwrap();
    let mut loader = DataLoader::with_config(STAGING, config(10)).unwrap();
    let mut table = MemoryTable::new(STAGING);
    orchestrator.start_next().unwrap();
    orchestrator.start_next().unwrap();

    let policy = RetryPolicy { max_attempts: 3, base_delay_ms: 100, max_delay_ms: 1_000 };
    let noaa = NoaaCdoClient::new(Some("key".to_string())).unwrap().with_retry(policy);
    let mut session = noaa.fetch_data("2024-01-01", "2024-01-02").unwrap();
    assert!(matches!(
        session.step(PageOutcome::Status(503), 7),
        FetchAction::RetryAfter { page: 0, .. }
    ));
    assert!(matches!(
        session.step(PageOutcome::Status(503), 7),
        FetchAction::RetryAfter { page: 0, .. }
    ));
    assert_eq!(session.step(PageOutcome::Status(503), 7), FetchAction::Done);
    let failed = session.finish();
    assert!(failed.records.is_empty());
    let mut noaa_tally = SourceReport::new("noaa_cdo");
    let error = failed.error.unwrap();
    assert_eq!(error.message(), "API error: upstream answered with status 503");
    noaa_tally.record_fetch_failure(error);
    assert!(orchestrator.finish(noaa_tally));
    assert!(!orchestrator.is_cancelled());
    assert_eq!(orchestrator.running_count(), 1);

    let nasa = NasaPowerClient::new().unwrap();
    let mut session = nasa.fetch_data("2024-01-01", "2024-01-02").unwrap();
    session.step(PageOutcome::Page { records: fetch_three(&nasa, 48.1), last: true }, 0);
    let fetched = session.finish();
    let mut nasa_tally = SourceReport::new("nasa_power");
    let valid = validate_all(schema, &fetched.records, STAMP, &mut nasa_tally);
    assert!(loader.load_records(valid, 0).is_empty());
    assert!(orchestrator.finish(nasa_tally));
    let batch = loader.next_batch(0, true).unwrap();
    match loader.resolve(table.insert_batch(&batch), 0) {
        Resolution::Settled { loaded, dead } => orchestrator.record_settlement(&loaded, &dead),
        other => panic!("unexpected resolution: {:?}", other),
    }
    assert!(orchestrator.is_complete(loader.is_idle()));

    let report = orchestrator.into_report();
    assert!(!report.is_clean());
    let noaa_entry = report.entry("noaa_cdo").unwrap();
    assert!(noaa_entry.window_failed);
    assert_eq!(noaa_entry.errors.len(), 1);
    assert!(matches!(noaa_entry.errors[0], ClimateError::ApiError(_)));
    assert_eq!((noaa_entry.fetched, noaa_entry.loaded), (0, 0));
    let nasa_entry = report.entry("nasa_power").unwrap();
    assert!(!nasa_entry.window_failed);
    assert!(nasa_entry.errors.is_empty());
    assert_eq!(
        (nasa_entry.fetched, nasa_entry.validated, nasa_entry.loaded, nasa_entry.failed),
        (3, 3, 3, 0)
    );
}

#[test]
fn rejected_record_is_left_out_of_the_batch_and_counted() {
    let manager = SchemaManager::new();
    let schema = manager.schema_for(STAGING).unwrap();
    let records = vec![
        observation("noaa_cdo", 1, 52.5, 1.5),
        observation("noaa_cdo", 1, 95.0, 2.5),
        observation("noaa_cdo", 2, 52.5, 3.5),
    ];
    let mut tally = SourceReport::new("noaa_cdo");
    let valid = validate_all(schema, &records, STAMP, &mut tally);
    assert_eq!(valid.len(), 2);
    assert_eq!(valid[0].timestamp, "2024-01-01T12:00:00Z");
    assert_eq!(valid[1].timestamp, "2024-01-02T12:00:00Z");
    assert_eq!((tally.fetched, tally.validated, tally.rejected), (3, 2, 1));
    assert_eq!(tally.errors.len(), 1);
    match &tally.errors[0] {
        ClimateError::ValidationError(issue) => {
            assert_eq!(issue.field, "latitude");
            assert_eq!(issue.reason, RejectReason::OutOfRange);
            assert_eq!(issue.record, records[1].record_id());
        },
        other => panic!("unexpected error: {:?}", other),
    }
    let mut loader = DataLoader::with_config(STAGING, config(10)).unwrap();
    assert!(loader.load_records(valid, 0).is_empty());
    let batch = loader.next_batch(0, true).unwrap();
    assert_eq!(batch.len(), 2);
    assert!(batch.records().iter().all(|r| r.latitude == number(52.5)));
}

#[test]
fn a_record_must_name_the_source_that_fetched_it() {
    let manager = SchemaManager::new();
    let schema = manager.schema_for(STAGING).unwrap();
    let records = vec![
        observation("noaa_cdo", 1, 52.5, 1.5),
        observation("nasa_power", 1, 52.5, 2.5),
        observation("", 2, 52.5, 3.5),
    ];
    let mut tally = SourceReport::new("noaa_cdo");
    let valid = validate_all(schema, &records, STAMP, &mut tally);
    assert_eq!(valid.len(), 1);
    assert_eq!(valid[0].source_id, "noaa_cdo");
    assert_eq!((tally.fetched, tally.validated, tally.rejected), (3, 1, 2));
    for (error, record) in tally.errors.iter().zip(&records[1..]) {
        match error {
            ClimateError::ValidationError(issue) => {
                assert_eq!(issue.field, "source_id");
                assert_eq!(issue.reason, RejectReason::WrongSource);
                assert_eq!(issue.record, record.record_id());
            },
            other => panic!("unexpected error: {:?}", other),
        }
    }
    assert_eq!(
        tally.errors[0].message(),
        format!(
            "Data validation error: record {}, field source_id: record names another source",
            records[1].record_id()
        )
    );
}

#[test]
fn an_empty_fetch_counts_nothing() {
    let manager = SchemaManager::new();
    let schema = manager.schema_for(STAGING).unwrap();
    let mut tally = SourceReport::new("noaa_cdo");
    assert!(validate_all(schema, &vec![], STAMP, &mut tally).is_empty());
    assert_eq!(tally, SourceReport::new("noaa_cdo"));
}
