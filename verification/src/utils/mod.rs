//! Shared building blocks: errors, text helpers, timestamps and retry policy.

pub mod clock;
pub mod config;
pub mod convert;
pub mod counter;
pub mod error;
pub mod retry;
pub mod text;
pub mod time;
