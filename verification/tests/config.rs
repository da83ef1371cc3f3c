//! Settings.

use climate::bigquery::client::BigQueryClient;
use climate::bigquery::loader::{DataLoader, LoaderConfig};
use climate::utils::config::{parse_number, PlatformConfig};
use climate::utils::error::ClimateError;
use climate::utils::retry::RetryPolicy;

fn pairs(list: &[(&str, &str)]) -> Vec<(String, String)> {
    list.iter().map(|(k, v)| (k.to_string(), v.to_string())).collect()
}

fn config_error(list: &[(&str, &str)]) -> String {
    match PlatformConfig::from_settings(&pairs(list)) {
        Err(ClimateError::ConfigError(message)) => message,
        other => panic!("expected a configuration error, got {:?}", other),
    }
}

#[test]
fn numbers_are_read_from_decimal_digits() {
    assert_eq!(parse_number("1", 10), Some(1));
    assert_eq!(parse_number("10", 10), Some(10));
    assert_eq!(parse_number("0010", 10), Some(10));
    assert_eq!(parse_number("11", 10), None);
    assert_eq!(parse_number("0", 10), None);
    assert_eq!(parse_number("000", 10), None);
    assert_eq!(parse_number("", 10), None);
    assert_eq!(parse_number("7", 5), None);
    assert_eq!(parse_number("7", 0), None);
    assert_eq!(parse_number("18446744073709551615", u64::MAX), Some(u64::MAX));
    assert_eq!(parse_number("18446744073709551616", u64::MAX), None);
    assert_eq!(parse_number("99999999999999999999999", u64::MAX), None);
    assert_eq!(parse_number("4294967295", u32::MAX as u64), Some(u32::MAX as u64));
    assert_eq!(parse_number("4294967296", u32::MAX as u64), None);
    for bad in ["-1", "+1", " 1", "1 ", "1.0", "1e3", "0x10", "ten", "١٢", "1_000"] {
        assert_eq!(parse_number(bad, u64::MAX), None, "{:?}", bad);
    }
}

#[test]
fn defaults_apply_where_settings_are_absent() {
    let config = PlatformConfig::from_settings(&pairs(&[
        ("BIGQUERY_DATASET", "climate"),
        ("HOME", "/root"),
        ("GCP_PROJECT_ID", "my-project"),
    ]))
    .unwrap();
    assert_eq!(
        config,
        PlatformConfig {
            project_id: "my-project".to_string(),
            dataset_id: "climate".to_string(),
            noaa_api_key: None,
            batch_size: 500,
            flush_interval_ms: 5_000,
            max_concurrency: 4,
            retry_max_attempts: 5,
        }
    );
    assert_eq!(config.retry_policy(), RetryPolicy::standard());
    assert_eq!(config.loader_config(), LoaderConfig {
        queue_capacity: 1000,
        ..DataLoader::new().config()
    });
}

#[test]
fn settings_are_read_and_the_last_value_counts() {
    let config = PlatformConfig::from_settings(&pairs(&[
        ("GCP_PROJECT_ID", "old-project"),
        ("BIGQUERY_DATASET", ""),
        ("NOAA_CDO_API_KEY", "secret"),
        ("BATCH_SIZE", "10"),
        ("FLUSH_INTERVAL_MS", "250"),
        ("MAX_CONCURRENCY", "2"),
        ("RETRY_MAX_ATTEMPTS", "7"),
        ("GCP_PROJECT_ID", "new-project"),
        ("BATCH_SIZE", "20"),
    ]))
    .unwrap();
    assert_eq!(
        config,
        PlatformConfig {
            project_id: "new-project".to_string(),
            dataset_id: String::new(),
            noaa_api_key: Some("secret".to_string()),
            batch_size: 20,
            flush_interval_ms: 250,
            max_concurrency: 2,
            retry_max_attempts: 7,
        }
    );
    assert_eq!(
        config.loader_config(),
        LoaderConfig {
            batch_size: 20,
            max_batch_bytes: 5_000_000,
            flush_interval_ms: 250,
            queue_capacity: 40,
            retry: RetryPolicy { max_attempts: 7, base_delay_ms: 500, max_delay_ms: 30_000 },
        }
    );
    assert!(DataLoader::with_config("t", config.loader_config()).is_ok());
}

#[test]
fn the_first_setting_that_fails_is_named() {
    assert_eq!(config_error(&[]), "GCP_PROJECT_ID not found in environment");
    assert_eq!(
        config_error(&[("BIGQUERY_DATASET", "d"), ("BATCH_SIZE", "x")]),
        "GCP_PROJECT_ID not found in environment"
    );
    assert_eq!(
        config_error(&[("GCP_PROJECT_ID", "p"), ("BATCH_SIZE", "x")]),
        "BIGQUERY_DATASET not found in environment"
    );
    let base = [("GCP_PROJECT_ID", "p"), ("BIGQUERY_DATASET", "d")];
    for (key, value) in [
        ("BATCH_SIZE", "0"),
        ("BATCH_SIZE", "many"),
        ("FLUSH_INTERVAL_MS", "-5"),
        ("FLUSH_INTERVAL_MS", "18446744073709551616"),
        ("MAX_CONCURRENCY", ""),
        ("RETRY_MAX_ATTEMPTS", "4294967296"),
    ] {
        let mut list = base.to_vec();
        list.push((key, value));
        assert_eq!(config_error(&list), format!("{} must be a whole number, at least 1", key));
    }
    assert_eq!(
        config_error(&[
            ("GCP_PROJECT_ID", "p"),
            ("BIGQUERY_DATASET", "d"),
            ("RETRY_MAX_ATTEMPTS", "0"),
            ("MAX_CONCURRENCY", "0"),
            ("BATCH_SIZE", "1"),
        ]),
        "MAX_CONCURRENCY must be a whole number, at least 1"
    );
}

#[test]
fn the_client_names_project_and_dataset() {
    let client =
        BigQueryClient::new(Some("my-project".to_string()), Some("climate".to_string())).unwrap();
    assert_eq!(client.project_id(), "my-project");
    assert_eq!(client.dataset_id(), "climate");
    assert_eq!(
        client.table_path("staging_weather_observations"),
        "my-project.climate.staging_weather_observations"
    );
    assert_eq!(
        BigQueryClient::new(None, Some("climate".to_string())).unwrap_err(),
        ClimateError::ConfigError("GCP_PROJECT_ID not found in environment".to_string())
    );
    assert_eq!(
        BigQueryClient::new(None, None).unwrap_err(),
        ClimateError::ConfigError("GCP_PROJECT_ID not found in environment".to_string())
    );
    assert_eq!(
        BigQueryClient::new(Some("my-project".to_string()), None).unwrap_err(),
        ClimateError::ConfigError("BIGQUERY_DATASET not found in environment".to_string())
    );
}
