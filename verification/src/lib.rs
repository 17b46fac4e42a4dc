//! A schema-reflected query engine: an in-memory catalog of tables, columns
//! and enum types, a builder that compiles parameterized SQL against it, and
//! the conversions between database cells and JSON-like values.

pub mod builder;
pub mod casing;
pub mod coercion;
pub mod json;
pub mod persist;
pub mod requests;
pub mod schema;
pub mod text;
pub mod typescript;
