//! The projects that the agent knows and how they follow what the provider lists.
pub mod agent;
pub mod composite_key;
pub mod database_laws;
pub mod diff;
pub mod diff_laws;
pub mod laws;
pub mod lookup_laws;
pub mod pg;
pub mod refresh;
pub mod registry;
pub mod schedule;
pub mod startup;
pub mod store;
