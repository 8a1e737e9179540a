//! What requests are answered.
pub mod answer_laws;
pub mod engine;
pub mod project_info;
pub mod request;
