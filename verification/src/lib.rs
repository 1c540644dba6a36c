//! Decoding and columnar serialization of US Historical Climatology Network
//! fixed-width climate records.
//!
//! The crate turns fixed-width station-day and station-month lines into typed
//! observations, joins them with a station gazetteer for coordinates, and
//! expands them into the row sets of the columnar output layouts (a long
//! layout with one row per present value, and wide layouts with one column
//! per measurement kind). Values are held exactly as scaled integers; the
//! surrounding binary converts them to floating point only at the output
//! boundary.

pub mod daily;
pub mod date;
pub mod decimal;
pub mod file_properties;
pub mod index;
pub mod ingest;
pub mod monthly;
pub mod names;
pub mod reading;
pub mod rows;
pub mod station;
pub mod text;
