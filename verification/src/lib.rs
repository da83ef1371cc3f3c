//! Ingestion of environmental observations: source adapters produce canonical
//! records, a schema registry validates them per destination table, and a
//! loader delivers them to the warehouse in batches with retry and
//! backpressure. Every function of this library carries a contract that is
//! proved against its body.

pub mod bigquery;
pub mod datasources;
pub mod models;
pub mod pipeline;
pub mod utils;
