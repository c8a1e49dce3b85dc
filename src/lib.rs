//! A gateway that runs an ad-hoc read-only SQL query in its own transaction
//! and returns its columns and a typed, row-major matrix of cells.

pub mod coerce;
pub mod decode;
pub mod error;
pub mod executor;
pub mod matrix;
pub mod results;
