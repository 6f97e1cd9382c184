//! A property-graph storage engine over a single wide-column table: typed
//! identifiers, the record and row model, the statement compiler, the
//! transaction compiler with its change merger, and the keyed query loader
//! with its cache.
pub mod cache;
pub mod document;
pub mod ids;
pub mod names;
pub mod query;
pub mod record;
pub mod statement;
pub mod transaction;
pub mod types;
