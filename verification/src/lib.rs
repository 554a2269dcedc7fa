//! A local package-database query library.
//!
//! The library loads a flat tabular database of package records, selects
//! records by one of three mutually exclusive modes (list-all, search by
//! regular expression, lookup by explicit names), and renders the matched
//! records either tersely (name only) or as a labeled multi-line report.

pub mod csvio;
pub mod datetime;
pub mod engine;
pub mod laws;
pub mod loader;
pub mod num;
pub mod record;
pub mod regexio;
pub mod render;
