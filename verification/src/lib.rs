//! Transparent column-level compression for a row-oriented table store.
//!
//! The overlay engine intercepts row operations on a designated table,
//! rewrites text payloads through a marker-byte compression codec, and
//! answers scans (including filtered scans) by decompressing on the fly.
//!
//! The pieces, leaves first: [`codec`] frames and decodes stored values;
//! [`conflict`] resolves the host's conflict directives into write-path
//! policies; [`identity`] caches synthetic scan-time identifiers for tables
//! whose declared key is not an integer; [`plan`] selects the predicates the
//! overlay pushes down to the store; [`sql`] and [`admin`] pin down every
//! statement text issued to it; [`schema`] models and parses the overlaid
//! table's columns; [`overlay`] binds it all into one overlay instance with
//! its write path, and [`cursor`] runs the scans. A thin host adapter
//! executes the planned statements and feeds the results back.

pub mod admin;
pub mod codec;
pub mod conflict;
pub mod cursor;
pub mod identity;
pub mod overlay;
pub mod plan;
pub mod schema;
pub mod sql;
pub mod text;
pub mod values;
