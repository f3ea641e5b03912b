//! A read-only catalog of categories and per-category detail records.
//!
//! Two datasets embedded as JSON text are parsed once at startup into
//! immutable catalogs. Queries are validated against the loaded data
//! (a requested count against the catalog size, a requested id against
//! the known id set) and answered with a uniform success/error result.

pub mod category;
pub mod consistency;
pub mod detail;
pub mod error;
pub mod json;
pub mod laws;
pub mod num;
pub mod response;
pub mod validate;
