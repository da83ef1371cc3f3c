//! NOAA Climate Data Online (CDO).
//!
//! The service gives one value per station, day and data type. A timestamp
//! comes without an offset and is meant in UTC.

use crate::datasources::fetch::FetchSession;
use crate::datasources::record::{ClimateRecord, RecordModel};
use crate::datasources::source::DataSource;
use crate::models::number::Float64;
use crate::models::value::{FieldValue, Fields, ValueModel};
use crate::utils::error::{ClimateError, ErrorModel};
use crate::utils::retry::RetryPolicy;
use crate::utils::text::join;
use crate::utils::time::{is_rfc3339, is_timestamp};
use vstd::prelude::*;
use vstd::string::*;

verus! {

/// One value as the service gives it.
#[derive(Debug, PartialEq, Eq)]
pub struct NoaaRecord {
    pub date: String,
    pub datatype: String,
    pub station: String,
    pub value: Float64,
}

/// The mathematical content of a [`NoaaRecord`].
pub struct NoaaModel {
    pub date: Seq<char>,
    pub datatype: Seq<char>,
    pub station: Seq<char>,
    pub value: u64,
}

impl View for NoaaRecord {
    type V = NoaaModel;

    open spec fn view(&self) -> NoaaModel {
        NoaaModel {
            date: self.date@,
            datatype: self.datatype@,
            station: self.station@,
            value: self.value.bits,
        }
    }
}

/// A station of the service: where it stands and what it is called.
#[derive(Debug, PartialEq, Eq)]
pub struct Station {
    pub latitude: Float64,
    pub longitude: Float64,
    pub name: Option<String>,
}

/// A timestamp of the service with its offset: as it is where it has one,
/// and with `Z` at its end where it has none.
pub open spec fn with_offset(date: Seq<char>) -> Seq<char> {
    if is_rfc3339(date) {
        date
    } else {
        date + "Z"@
    }
}

/// The canonical record of one value of the service, taken at a station.
pub open spec fn noaa_canonical(
    raw: NoaaModel,
    latitude: u64,
    longitude: u64,
    place: Option<Seq<char>>,
) -> RecordModel {
    RecordModel {
        source_id: "noaa_cdo"@,
        timestamp: with_offset(raw.date),
        latitude,
        longitude,
        location_name: place,
        data: seq![
            ("station_id"@, ValueModel::Text(raw.station)),
            ("datatype"@, ValueModel::Text(raw.datatype)),
            ("value"@, ValueModel::Float(raw.value)),
        ],
    }
}

/// The client of the service.
#[derive(Debug)]
pub struct NoaaCdoClient {
    api_key: String,
    retry: RetryPolicy,
}

impl NoaaCdoClient {
    /// The key of the client.
    pub closed spec fn key(&self) -> Seq<char> {
        self.api_key@
    }

    /// The retry policy of the client.
    pub closed spec fn retry_policy(&self) -> RetryPolicy {
        self.retry
    }

    /// A client with the key that the setting `NOAA_CDO_API_KEY` holds and
    /// the standard retry policy. A key that is absent is a configuration
    /// error, found here and not at the first fetch.
    pub fn new(api_key: Option<String>) -> (made: Result<Self, ClimateError>)
        ensures
            made is Ok <==> api_key is Some,
            made matches Ok(client) ==> client.key() == api_key->0@ && client.retry_policy() == (
            RetryPolicy { max_attempts: 5, base_delay_ms: 500, max_delay_ms: 30_000 }),
            made matches Err(error) ==> error@ == ErrorModel::ConfigError(
                "NOAA_CDO_API_KEY not found in environment"@,
            ),
    {
        match api_key {
            Some(api_key) => Ok(NoaaCdoClient { api_key, retry: RetryPolicy::standard() }),
            None => Err(
                ClimateError::ConfigError("NOAA_CDO_API_KEY not found in environment".to_owned()),
            ),
        }
    }

    /// The same client with another retry policy.
    pub fn with_retry(self, retry: RetryPolicy) -> (client: Self)
        ensures
            client.key() == self.key(),
            client.retry_policy() == retry,
    {
        NoaaCdoClient { api_key: self.api_key, retry }
    }

    /// The key that goes with every request.
    pub fn api_key(&self) -> (key: &str)
        ensures
            key@ == self.key(),
    {
        self.api_key.as_str()
    }

    /// The canonical record of one value of the service, taken at the given
    /// station: the value, its data type and the station's identifier become
    /// measurements, and the timestamp gets its offset.
    pub fn to_record(raw: &NoaaRecord, station: &Station) -> (record: ClimateRecord)
        ensures
            record@ == noaa_canonical(
                raw@,
                station.latitude.bits,
                station.longitude.bits,
                station.name.deep_view(),
            ),
    {
        let timestamp = if is_timestamp(raw.date.as_str()) {
            raw.date.clone()
        } else {
            join(raw.date.as_str(), "Z")
        };
        let mut data: Fields = Vec::new();
        data.push(("station_id".to_owned(), FieldValue::Text(raw.station.clone())));
        data.push(("datatype".to_owned(), FieldValue::Text(raw.datatype.clone())));
        data.push(("value".to_owned(), FieldValue::Float(raw.value)));
        assert(data.deep_view() =~= seq![
            ("station_id"@, ValueModel::Text(raw.station@)),
            ("datatype"@, ValueModel::Text(raw.datatype@)),
            ("value"@, ValueModel::Float(raw.value.bits)),
        ]);
        ClimateRecord {
            source_id: "noaa_cdo".to_owned(),
            timestamp,
            latitude: station.latitude,
            longitude: station.longitude,
            location_name: match &station.name {
                Some(name) => Some(name.clone()),
                None => None,
            },
            data,
        }
    }
}

impl DataSource for NoaaCdoClient {
    open spec fn name(&self) -> Seq<char> {
        "noaa_cdo"@
    }

    open spec fn policy(&self) -> RetryPolicy {
        self.retry_policy()
    }

    fn source_name(&self) -> (name: &str) {
        "noaa_cdo"
    }

    fn fetch_data(&self, start_date: &str, end_date: &str) -> (session: Result<
        FetchSession,
        ClimateError,
    >) {
        FetchSession::begin("noaa_cdo", start_date, end_date, self.retry)
    }
}

} // verus!
