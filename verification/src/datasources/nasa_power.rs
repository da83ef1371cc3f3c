//! NASA POWER.
//!
//! The service gives, for a point and a day, one value per parameter. A day
//! is written `YYYYMMDD`; a value that is missing is written as -999.

use crate::datasources::fetch::FetchSession;
use crate::datasources::record::{ClimateRecord, RecordModel};
use crate::datasources::source::DataSource;
use crate::models::number::Float64;
use crate::models::value::{FieldValue, Fields, ValueModel};
use crate::utils::error::ClimateError;
use crate::utils::retry::RetryPolicy;
use crate::utils::text::{chars_of, hex_char, hex_digit, str_eq};
use crate::utils::time::is_digit;
use vstd::prelude::*;
use vstd::string::*;

verus! {

/// The pattern of -999.0, which the service writes for a missing value.
pub const FILL_VALUE_BITS: u64 = 0xC08F_3800_0000_0000;

/// The name under which a parameter of the service is kept: the name of the
/// column for the parameters that the raw table knows, and the parameter's
/// own name for every other.
pub open spec fn canonical_name(parameter: Seq<char>) -> Seq<char> {
    if parameter == "T2M"@ {
        "temperature_2m"@
    } else if parameter == "T2M_MAX"@ {
        "temperature_2m_max"@
    } else if parameter == "T2M_MIN"@ {
        "temperature_2m_min"@
    } else if parameter == "PRECTOTCORR"@ {
        "precipitation"@
    } else if parameter == "WS2M"@ {
        "wind_speed"@
    } else if parameter == "RH2M"@ {
        "relative_humidity"@
    } else if parameter == "ALLSKY_SFC_SW_DWN"@ {
        "solar_radiation"@
    } else {
        parameter
    }
}

/// Whether `date` is a day as the service writes it: eight digits.
pub open spec fn is_compact_date(date: Seq<char>) -> bool {
    date.len() == 8 && forall|i: int| 0 <= i < 8 ==> is_digit(#[trigger] date[i])
}

/// The timestamp of the start of a day of the service, in UTC.
pub open spec fn day_timestamp(date: Seq<char>) -> Seq<char> {
    date.subrange(0, 4) + "-"@ + date.subrange(4, 6) + "-"@ + date.subrange(6, 8)
        + "T00:00:00Z"@
}

/// The measurement that a value of a parameter makes, if it is not missing.
pub open spec fn measurement_of() -> spec_fn((Seq<char>, u64)) -> Option<(Seq<char>, ValueModel)> {
    |parameter: (Seq<char>, u64)|
        if parameter.1 == FILL_VALUE_BITS {
            None
        } else {
            Some((canonical_name(parameter.0), ValueModel::Float(parameter.1)))
        }
}

/// The canonical record of the values of one day at one point.
pub open spec fn nasa_canonical(
    date: Seq<char>,
    latitude: u64,
    longitude: u64,
    place: Option<Seq<char>>,
    parameters: Seq<(Seq<char>, u64)>,
) -> RecordModel {
    RecordModel {
        source_id: "nasa_power"@,
        timestamp: day_timestamp(date),
        latitude,
        longitude,
        location_name: place,
        data: parameters.filter_map(measurement_of()),
    }
}

fn rename(parameter: &str) -> (name: String)
    ensures
        name@ == canonical_name(parameter@),
{
    if str_eq(parameter, "T2M") {
        "temperature_2m".to_owned()
    } else if str_eq(parameter, "T2M_MAX") {
        "temperature_2m_max".to_owned()
    } else if str_eq(parameter, "T2M_MIN") {
        "temperature_2m_min".to_owned()
    } else if str_eq(parameter, "PRECTOTCORR") {
        "precipitation".to_owned()
    } else if str_eq(parameter, "WS2M") {
        "wind_speed".to_owned()
    } else if str_eq(parameter, "RH2M") {
        "relative_humidity".to_owned()
    } else if str_eq(parameter, "ALLSKY_SFC_SW_DWN") {
        "solar_radiation".to_owned()
    } else {
        parameter.to_owned()
    }
}

fn push_digits(out: String, chars: &Vec<char>, from: usize, to: usize) -> (longer: String)
    requires
        from <= to <= chars.len(),
        forall|i: int| from <= i < to ==> is_digit(#[trigger] chars@[i]),
    ensures
        longer@ == out@ + chars@.subrange(from as int, to as int),
{
    let mut longer = out;
    let mut i: usize = from;
    assert(out@ + chars@.subrange(from as int, from as int) =~= out@);
    while i < to
        invariant
            from <= i <= to <= chars.len(),
            forall|k: int| from <= k < to ==> is_digit(#[trigger] chars@[k]),
            longer@ == out@ + chars@.subrange(from as int, i as int),
        decreases to - i,
    {
        let c = chars[i];
        assert(is_digit(chars@[i as int]));
        let value = (c as u32 - '0' as u32) as u64;
        assert(hex_char(value as int) == c);
        longer = longer.concat(hex_digit(value));
        assert(longer@ =~= out@ + chars@.subrange(from as int, i + 1));
        i += 1;
    }
    longer
}

fn compact_date(date: &str) -> (chars: Option<Vec<char>>)
    ensures
        chars is Some <==> is_compact_date(date@),
        chars matches Some(found) ==> found@ == date@,
{
    let chars = chars_of(date);
    if chars.len() != 8 {
        return None;
    }
    let mut i: usize = 0;
    while i < 8
        invariant
            i <= 8,
            chars.len() == 8,
            chars@ == date@,
            forall|k: int| 0 <= k < i ==> is_digit(#[trigger] chars@[k]),
        decreases 8 - i,
    {
        let c = chars[i];
        if !(c >= '0' && c <= '9') {
            assert(!is_digit(date@[i as int]));
            return None;
        }
        i += 1;
    }
    Some(chars)
}

/// The client of the service.
#[derive(Debug)]
pub struct NasaPowerClient {
    retry: RetryPolicy,
}

impl NasaPowerClient {
    /// The retry policy of the client.
    pub closed spec fn retry_policy(&self) -> RetryPolicy {
        self.retry
    }

    /// A client with the standard retry policy. The service asks for no key,
    /// so this never fails.
    pub fn new() -> (made: Result<Self, ClimateError>)
        ensures
            made matches Ok(client) && client.retry_policy() == (RetryPolicy {
                max_attempts: 5,
                base_delay_ms: 500,
                max_delay_ms: 30_000,
            }),
    {
        Ok(NasaPowerClient { retry: RetryPolicy::standard() })
    }

    /// The same client with another retry policy.
    pub fn with_retry(self, retry: RetryPolicy) -> (client: Self)
        ensures
            client.retry_policy() == retry,
    {
        NasaPowerClient { retry }
    }

    /// The canonical record of the values of one day at one point: every
    /// parameter that has a value becomes a measurement under its canonical
    /// name, a missing value is left out, and the day becomes the timestamp
    /// of its start in UTC. There is no record where `date` is not a day as
    /// the service writes it.
    pub fn to_record(
        date: &str,
        latitude: Float64,
        longitude: Float64,
        location_name: Option<String>,
        parameters: &Vec<(String, Float64)>,
    ) -> (record: Option<ClimateRecord>)
        ensures
            record is Some <==> is_compact_date(date@),
            record matches Some(made) ==> made@ == nasa_canonical(
                date@,
                latitude.bits,
                longitude.bits,
                location_name.deep_view(),
                parameters.deep_view(),
            ),
    {
        let chars = match compact_date(date) {
            Some(chars) => chars,
            None => {
                return None;
            },
        };
        let year = push_digits(String::new(), &chars, 0, 4).concat("-");
        let month = push_digits(year, &chars, 4, 6).concat("-");
        let timestamp = push_digits(month, &chars, 6, 8).concat("T00:00:00Z");
        assert(timestamp@ =~= day_timestamp(date@));
        let ghost all = parameters.deep_view();
        let mut data: Fields = Vec::new();
        let mut i: usize = 0;
        assert(all.take(0).len() == 0);
        while i < parameters.len()
            invariant
                i <= parameters.len(),
                all == parameters.deep_view(),
                data.deep_view() == all.take(i as int).filter_map(measurement_of()),
            decreases parameters.len() - i,
        {
            proof {
                all.lemma_filter_map_take_succ(measurement_of(), i as int);
            }
            let value = parameters[i].1;
            if value.bits != FILL_VALUE_BITS {
                let ghost before = data.deep_view();
                let name = rename(parameters[i].0.as_str());
                data.push((name, FieldValue::Float(value)));
                assert(data.deep_view() =~= before.push(
                    (canonical_name(all[i as int].0), ValueModel::Float(all[i as int].1)),
                ));
            }
            i += 1;
        }
        assert(all.take(i as int) =~= all);
        Some(
            ClimateRecord {
                source_id: "nasa_power".to_owned(),
                timestamp,
                latitude,
                longitude,
                location_name,
                data,
            },
        )
    }
}

impl DataSource for NasaPowerClient {
    open spec fn name(&self) -> Seq<char> {
        "nasa_power"@
    }

    open spec fn policy(&self) -> RetryPolicy {
        self.retry_policy()
    }

    fn source_name(&self) -> (name: &str) {
        "nasa_power"
    }

    fn fetch_data(&self, start_date: &str, end_date: &str) -> (session: Result<
        FetchSession,
        ClimateError,
    >) {
        FetchSession::begin("nasa_power", start_date, end_date, self.retry)
    }
}

} // verus!
