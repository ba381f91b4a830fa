//! Acknowledgment reports for software dependencies.
//!
//! The canonical in-memory form is a list of dependency records, each with
//! its name, description, role, links, popularity statistics and fetch
//! status.  The core of the library is the report codec: bidirectional
//! conversion between that list and five on-disk textual forms — a
//! decorated table, a decorated list, a delimited form, an object-array
//! document and a key-value document — plus format detection from a path
//! and content, and a converter that re-emits one report as others without
//! writing anything until every target has rendered.
//!
//! All localized text is drawn from an explicit [`labels::Labels`] catalog
//! threaded through every call; decoding matches the catalog it is given.

pub mod chars;
pub mod errors;
pub mod labels;
pub mod record;
pub mod cells;
pub mod csv;
pub mod table;
pub mod list;
pub mod json;
pub mod yaml;
pub mod output;
pub mod travert;
pub mod config;
pub mod sources;
pub mod laws;
