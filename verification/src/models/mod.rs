//! Data models for climate data.

pub mod number;
pub mod observation;
pub mod value;

pub use observation::{AirQualityMeasurement, ClimateProjection, WeatherObservation};
