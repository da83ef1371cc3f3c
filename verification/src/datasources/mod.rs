//! Data sources for climate data ingestion.

pub mod fetch;
pub mod nasa_power;
pub mod noaa_cdo;
pub mod record;
pub mod source;

pub use record::ClimateRecord;
pub use source::DataSource;
