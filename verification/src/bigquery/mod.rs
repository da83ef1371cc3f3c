//! Warehouse integration.

pub mod client;
pub mod loader;
pub mod schema;
pub mod table;
pub mod validate;

pub use client::BigQueryClient;
pub use loader::DataLoader;
pub use schema::SchemaManager;
