//! Query execution and result tabulation for an object-query service.
//!
//! The library splits a compact query line into a clause and an optional
//! projection, frames the request sent to the service, classifies the reply,
//! normalizes the returned objects into a column-stable table and encodes that
//! table as CSV. Sending the request and writing files are left to the caller.

pub mod config;
pub mod executor;
pub mod json;
pub mod query;
pub mod table;
pub mod text;
pub mod transport;
