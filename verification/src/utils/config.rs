//! The settings of the platform, read once at startup.
//!
//! Settings arrive as pairs of a key and a value, as the environment gives
//! them; where a key stands more than once, its last value counts. The
//! project and the dataset must be there. The numbers have defaults, and a
//! number that is there must be written in decimal digits and be at least 1.

use crate::bigquery::loader::LoaderConfig;
use crate::utils::error::{ClimateError, ErrorModel};
use crate::utils::retry::RetryPolicy;
use crate::utils::text::{chars_of, join, str_eq};
use crate::utils::time::{digit_value, is_digit};
use vstd::prelude::*;
use vstd::string::*;

verus! {

/// The settings of a run.
#[derive(Debug, PartialEq, Eq)]
pub struct PlatformConfig {
    pub project_id: String,
    pub dataset_id: String,
    pub noaa_api_key: Option<String>,
    pub batch_size: usize,
    pub flush_interval_ms: u64,
    pub max_concurrency: usize,
    pub retry_max_attempts: u32,
}

/// The mathematical content of a [`PlatformConfig`].
pub struct ConfigModel {
    pub project_id: Seq<char>,
    pub dataset_id: Seq<char>,
    pub noaa_api_key: Option<Seq<char>>,
    pub batch_size: usize,
    pub flush_interval_ms: u64,
    pub max_concurrency: usize,
    pub retry_max_attempts: u32,
}

impl View for PlatformConfig {
    type V = ConfigModel;

    open spec fn view(&self) -> ConfigModel {
        ConfigModel {
            project_id: self.project_id@,
            dataset_id: self.dataset_id@,
            noaa_api_key: self.noaa_api_key.deep_view(),
            batch_size: self.batch_size,
            flush_interval_ms: self.flush_interval_ms,
            max_concurrency: self.max_concurrency,
            retry_max_attempts: self.retry_max_attempts,
        }
    }
}

/// Whether every character is a decimal digit.
pub open spec fn all_digits(text: Seq<char>) -> bool {
    forall|i: int| 0 <= i < text.len() ==> is_digit(#[trigger] text[i])
}

/// The number that decimal digits write.
pub open spec fn decimal_value(text: Seq<char>) -> nat
    decreases text.len(),
{
    if text.len() == 0 {
        0
    } else {
        (decimal_value(text.drop_last()) * 10 + digit_value(text.last())) as nat
    }
}

/// The number that `text` writes, where it is one or more decimal digits
/// that write a number from 1 to `limit`.
pub open spec fn setting_number(text: Seq<char>, limit: u64) -> Option<u64> {
    if text.len() > 0 && all_digits(text) && 1 <= decimal_value(text) <= limit {
        Some(decimal_value(text) as u64)
    } else {
        None
    }
}

/// The value of the setting `key`: that of the last pair with the key.
pub open spec fn setting(settings: Seq<(Seq<char>, Seq<char>)>, key: Seq<char>) -> Option<
    Seq<char>,
>
    decreases settings.len(),
{
    if settings.len() == 0 {
        None
    } else if settings.last().0 == key {
        Some(settings.last().1)
    } else {
        setting(settings.drop_last(), key)
    }
}

/// What a setting that holds a number comes to: the default where it is
/// absent, its number where it writes one within the limit, and nothing
/// where it is there and writes none.
pub open spec fn number_or(
    settings: Seq<(Seq<char>, Seq<char>)>,
    key: Seq<char>,
    default: u64,
    limit: u64,
) -> Option<u64> {
    match setting(settings, key) {
        None => Some(default),
        Some(text) => setting_number(text, limit),
    }
}

/// The error of a setting that must be there and is not.
pub open spec fn missing(key: Seq<char>) -> ErrorModel {
    ErrorModel::ConfigError(key + " not found in environment"@)
}

/// The error of a setting that holds no number from 1 up.
pub open spec fn not_a_number(key: Seq<char>) -> ErrorModel {
    ErrorModel::ConfigError(key + " must be a whole number, at least 1"@)
}

/// What the settings come to: the configuration, or the error of the first
/// setting that is missing or unreadable, in the order project, dataset,
/// batch size, flush interval, concurrency, attempts.
pub open spec fn config_from(settings: Seq<(Seq<char>, Seq<char>)>) -> Result<
    ConfigModel,
    ErrorModel,
> {
    let batch_size = number_or(settings, "BATCH_SIZE"@, 500, usize::MAX as u64);
    let flush_interval = number_or(settings, "FLUSH_INTERVAL_MS"@, 5_000, u64::MAX);
    let max_concurrency = number_or(settings, "MAX_CONCURRENCY"@, 4, usize::MAX as u64);
    let attempts = number_or(settings, "RETRY_MAX_ATTEMPTS"@, 5, u32::MAX as u64);
    if setting(settings, "GCP_PROJECT_ID"@) is None {
        Err(missing("GCP_PROJECT_ID"@))
    } else if setting(settings, "BIGQUERY_DATASET"@) is None {
        Err(missing("BIGQUERY_DATASET"@))
    } else if batch_size is None {
        Err(not_a_number("BATCH_SIZE"@))
    } else if flush_interval is None {
        Err(not_a_number("FLUSH_INTERVAL_MS"@))
    } else if max_concurrency is None {
        Err(not_a_number("MAX_CONCURRENCY"@))
    } else if attempts is None {
        Err(not_a_number("RETRY_MAX_ATTEMPTS"@))
    } else {
        Ok(
            ConfigModel {
                project_id: setting(settings, "GCP_PROJECT_ID"@)->0,
                dataset_id: setting(settings, "BIGQUERY_DATASET"@)->0,
                noaa_api_key: setting(settings, "NOAA_CDO_API_KEY"@),
                batch_size: batch_size->0 as usize,
                flush_interval_ms: flush_interval->0,
                max_concurrency: max_concurrency->0 as usize,
                retry_max_attempts: attempts->0 as u32,
            },
        )
    }
}

/// More digits write a number at least as large.
proof fn lemma_decimal_grows(text: Seq<char>, count: int)
    requires
        all_digits(text),
        0 <= count <= text.len(),
    ensures
        decimal_value(text.take(count)) <= decimal_value(text),
    decreases text.len() - count,
{
    if count < text.len() {
        assert(text.take(count + 1).drop_last() =~= text.take(count));
        assert(text.take(count + 1).last() == text[count]);
        assert(is_digit(text[count]));
        lemma_decimal_grows(text, count + 1);
    } else {
        assert(text.take(count) =~= text);
    }
}

/// Reads a number from 1 to `limit` that is written in decimal digits.
pub fn parse_number(text: &str, limit: u64) -> (number: Option<u64>)
    ensures
        number == setting_number(text@, limit),
{
    let chars = chars_of(text);
    if chars.len() == 0 {
        return None;
    }
    let ghost all = chars@;
    let mut value: u64 = 0;
    let mut i: usize = 0;
    assert(all.take(0).len() == 0);
    while i < chars.len()
        invariant
            i <= chars.len(),
            all == chars@,
            all == text@,
            all_digits(all.take(i as int)),
            value == decimal_value(all.take(i as int)),
            value <= limit,
        decreases chars.len() - i,
    {
        let c = chars[i];
        assert(all.take(i + 1).drop_last() =~= all.take(i as int));
        assert(all.take(i + 1).last() == all[i as int]);
        if !(c >= '0' && c <= '9') {
            assert(!is_digit(all[i as int]));
            return None;
        }
        let digit = (c as u32 - '0' as u32) as u64;
        assert forall|k: int| 0 <= k < i + 1 implies is_digit(#[trigger] all.take(i + 1)[k]) by {
            if k < i {
                assert(all.take(i as int)[k] == all.take(i + 1)[k]);
            }
        }
        if digit > limit || value > (limit - digit) / 10 {
            proof {
                assert(value * 10 + digit > limit);
                if all_digits(all) {
                    lemma_decimal_grows(all, i + 1);
                }
            }
            return None;
        }
        value = value * 10 + digit;
        i += 1;
    }
    assert(all.take(i as int) =~= all);
    if value >= 1 {
        Some(value)
    } else {
        None
    }
}

fn find<'a>(settings: &'a Vec<(String, String)>, key: &str) -> (found: Option<&'a String>)
    ensures
        found.deep_view() == setting(settings.deep_view(), key@),
{
    let ghost all = settings.deep_view();
    let mut i: usize = settings.len();
    assert(all.take(i as int) =~= all);
    while i > 0
        invariant
            i <= settings.len(),
            all == settings.deep_view(),
            setting(all, key@) == setting(all.take(i as int), key@),
        decreases i,
    {
        i -= 1;
        assert(all.take(i + 1).last() == all[i as int]);
        assert(all.take(i + 1).drop_last() =~= all.take(i as int));
        if str_eq(settings[i].0.as_str(), key) {
            return Some(&settings[i].1);
        }
    }
    assert(all.take(0).len() == 0);
    None
}

fn number_setting(settings: &Vec<(String, String)>, key: &str, default: u64, limit: u64) -> (number:
    Result<u64, ClimateError>)
    requires
        1 <= default <= limit,
    ensures
        match number_or(settings.deep_view(), key@, default, limit) {
            Some(value) => number == Ok::<u64, ClimateError>(value) && 1 <= value <= limit,
            None => number matches Err(error) && error@ == not_a_number(key@),
        },
{
    match find(settings, key) {
        None => Ok(default),
        Some(text) => match parse_number(text.as_str(), limit) {
            Some(value) => Ok(value),
            None => Err(
                ClimateError::ConfigError(join(key, " must be a whole number, at least 1")),
            ),
        },
    }
}

impl PlatformConfig {
    /// Reads the configuration from the settings `GCP_PROJECT_ID`,
    /// `BIGQUERY_DATASET`, `NOAA_CDO_API_KEY`, `BATCH_SIZE`,
    /// `FLUSH_INTERVAL_MS`, `MAX_CONCURRENCY` and `RETRY_MAX_ATTEMPTS`.
    pub fn from_settings(settings: &Vec<(String, String)>) -> (made: Result<
        PlatformConfig,
        ClimateError,
    >)
        ensures
            match config_from(settings.deep_view()) {
                Ok(config) => made matches Ok(c) && c@ == config,
                Err(error) => made matches Err(e) && e@ == error,
            },
    {
        let project_id = match find(settings, "GCP_PROJECT_ID") {
            Some(value) => value.clone(),
            None => {
                return Err(
                    ClimateError::ConfigError(join("GCP_PROJECT_ID", " not found in environment")),
                );
            },
        };
        let dataset_id = match find(settings, "BIGQUERY_DATASET") {
            Some(value) => value.clone(),
            None => {
                return Err(
                    ClimateError::ConfigError(
                        join("BIGQUERY_DATASET", " not found in environment"),
                    ),
                );
            },
        };
        let batch_size = match number_setting(settings, "BATCH_SIZE", 500, usize::MAX as u64) {
            Ok(value) => value as usize,
            Err(error) => {
                return Err(error);
            },
        };
        let flush_interval_ms = match number_setting(
            settings,
            "FLUSH_INTERVAL_MS",
            5_000,
            u64::MAX,
        ) {
            Ok(value) => value,
            Err(error) => {
                return Err(error);
            },
        };
        let max_concurrency = match number_setting(
            settings,
            "MAX_CONCURRENCY",
            4,
            usize::MAX as u64,
        ) {
            Ok(value) => value as usize,
            Err(error) => {
                return Err(error);
            },
        };
        let retry_max_attempts = match number_setting(
            settings,
            "RETRY_MAX_ATTEMPTS",
            5,
            u32::MAX as u64,
        ) {
            Ok(value) => value as u32,
            Err(error) => {
                return Err(error);
            },
        };
        let noaa_api_key = match find(settings, "NOAA_CDO_API_KEY") {
            Some(value) => Some(value.clone()),
            None => None,
        };
        Ok(
            PlatformConfig {
                project_id,
                dataset_id,
                noaa_api_key,
                batch_size,
                flush_interval_ms,
                max_concurrency,
                retry_max_attempts,
            },
        )
    }

    /// The retry policy that the settings ask for: the configured number of
    /// attempts with the standard delays.
    pub fn retry_policy(&self) -> (policy: RetryPolicy)
        ensures
            policy == (RetryPolicy {
                max_attempts: self.retry_max_attempts,
                base_delay_ms: 500,
                max_delay_ms: 30_000,
            }),
    {
        RetryPolicy { max_attempts: self.retry_max_attempts, base_delay_ms: 500, max_delay_ms: 30_000 }
    }

    /// The limits of a loader that the settings ask for: the configured
    /// batch size and flush interval, batches of up to 5,000,000 bytes, and a
    /// queue that holds two batches.
    pub fn loader_config(&self) -> (config: LoaderConfig)
        ensures
            config == (LoaderConfig {
                batch_size: self.batch_size,
                max_batch_bytes: 5_000_000,
                flush_interval_ms: self.flush_interval_ms,
                queue_capacity: if self.batch_size <= usize::MAX / 2 {
                    (self.batch_size * 2) as usize
                } else {
                    usize::MAX
                },
                retry: RetryPolicy {
                    max_attempts: self.retry_max_attempts,
                    base_delay_ms: 500,
                    max_delay_ms: 30_000,
                },
            }),
    {
        LoaderConfig {
            batch_size: self.batch_size,
            max_batch_bytes: 5_000_000,
            flush_interval_ms: self.flush_interval_ms,
            queue_capacity: if self.batch_size <= usize::MAX / 2 {
                self.batch_size * 2
            } else {
                usize::MAX
            },
            retry: self.retry_policy(),
        }
    }
}

} // verus!
