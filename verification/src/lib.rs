//! Catalog aggregation and in-memory state management for an add-on store:
//! provider adapters, the merged catalog, the query engine over it, the
//! user's library and the runtime configuration.

pub mod adapters;
pub mod clock;
pub mod library;
pub mod models;
pub mod notify;
pub mod query;
pub mod runtime;
pub mod store;
pub mod text;
