//! The decision agent's rules: configuration, project bookkeeping and the answers to requests.
pub mod config;
pub mod data;
pub mod outside;
pub mod provider;
pub mod routes;
pub mod text;
