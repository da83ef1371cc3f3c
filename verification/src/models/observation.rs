//! Typed rows of the analytical tables.

use crate::bigquery::validate::{lookup, lookup_value, ValidatedModel, ValidatedRecord};
use crate::models::number::Float64;
use crate::models::value::{FieldValue, Fields, FieldsModel, ValueModel};
use vstd::prelude::*;
use vstd::string::*;

verus! {

/// One row of the staging table of weather observations.
#[derive(Debug, PartialEq, Eq)]
pub struct WeatherObservation {
    pub observation_id: String,
    pub source_id: String,
    pub timestamp: String,
    pub latitude: Float64,
    pub longitude: Float64,
    pub location_name: Option<String>,
    pub temperature_celsius: Option<Float64>,
    pub precipitation_mm: Option<Float64>,
    pub wind_speed_ms: Option<Float64>,
    pub humidity_percent: Option<Float64>,
    pub pressure_hpa: Option<Float64>,
}

/// The mathematical content of a [`WeatherObservation`].
pub struct ObservationModel {
    pub observation_id: Seq<char>,
    pub source_id: Seq<char>,
    pub timestamp: Seq<char>,
    pub latitude: u64,
    pub longitude: u64,
    pub location_name: Option<Seq<char>>,
    pub temperature_celsius: Option<u64>,
    pub precipitation_mm: Option<u64>,
    pub wind_speed_ms: Option<u64>,
    pub humidity_percent: Option<u64>,
    pub pressure_hpa: Option<u64>,
}

impl View for WeatherObservation {
    type V = ObservationModel;

    open spec fn view(&self) -> ObservationModel {
        ObservationModel {
            observation_id: self.observation_id@,
            source_id: self.source_id@,
            timestamp: self.timestamp@,
            latitude: self.latitude.bits,
            longitude: self.longitude.bits,
            location_name: self.location_name.deep_view(),
            temperature_celsius: self.temperature_celsius.deep_view(),
            precipitation_mm: self.precipitation_mm.deep_view(),
            wind_speed_ms: self.wind_speed_ms.deep_view(),
            humidity_percent: self.humidity_percent.deep_view(),
            pressure_hpa: self.pressure_hpa.deep_view(),
        }
    }
}

/// One value of a climate projection.
#[derive(Debug, PartialEq, Eq)]
pub struct ClimateProjection {
    pub projection_id: String,
    pub model: String,
    pub scenario: String,
    pub year: i32,
    pub region: String,
    pub variable: String,
    pub value: Float64,
}

/// One measurement of air quality.
#[derive(Debug, PartialEq, Eq)]
pub struct AirQualityMeasurement {
    pub measurement_id: String,
    pub timestamp: String,
    pub latitude: Float64,
    pub longitude: Float64,
    pub location_name: Option<String>,
    pub pm25: Option<Float64>,
    pub pm10: Option<Float64>,
    pub o3: Option<Float64>,
    pub no2: Option<Float64>,
    pub so2: Option<Float64>,
    pub co: Option<Float64>,
}

/// The number that a row holds under `name`, if it holds one there.
pub open spec fn measurement(row: FieldsModel, name: Seq<char>) -> Option<u64> {
    match lookup_value(row, name) {
        Some(ValueModel::Float(bits)) => Some(bits),
        _ => None,
    }
}

/// The weather observation that a validated record makes: its identifier
/// and attributes, and the five measurements of the staging table as far as
/// its row holds numbers for them.
pub open spec fn observation_of(record: ValidatedModel) -> ObservationModel {
    ObservationModel {
        observation_id: record.record_id,
        source_id: record.source_id,
        timestamp: record.timestamp,
        latitude: record.latitude,
        longitude: record.longitude,
        location_name: record.location_name,
        temperature_celsius: measurement(record.row, "temperature_celsius"@),
        precipitation_mm: measurement(record.row, "precipitation_mm"@),
        wind_speed_ms: measurement(record.row, "wind_speed_ms"@),
        humidity_percent: measurement(record.row, "humidity_percent"@),
        pressure_hpa: measurement(record.row, "pressure_hpa"@),
    }
}

fn number_at(row: &Fields, name: &str) -> (found: Option<Float64>)
    ensures
        found.deep_view() == measurement(row.deep_view(), name@),
{
    match lookup(row, name) {
        Some(FieldValue::Float(number)) => Some(*number),
        _ => None,
    }
}

impl WeatherObservation {
    /// The weather observation that a validated record makes.
    pub fn from_validated(record: &ValidatedRecord) -> (observation: WeatherObservation)
        ensures
            observation@ == observation_of(record@),
    {
        WeatherObservation {
            observation_id: record.record_id.clone(),
            source_id: record.source_id.clone(),
            timestamp: record.timestamp.clone(),
            latitude: record.latitude,
            longitude: record.longitude,
            location_name: match &record.location_name {
                Some(name) => Some(name.clone()),
                None => None,
            },
            temperature_celsius: number_at(&record.row, "temperature_celsius"),
            precipitation_mm: number_at(&record.row, "precipitation_mm"),
            wind_speed_ms: number_at(&record.row, "wind_speed_ms"),
            humidity_percent: number_at(&record.row, "humidity_percent"),
            pressure_hpa: number_at(&record.row, "pressure_hpa"),
        }
    }
}

} // verus!
