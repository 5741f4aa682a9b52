//! What the controller knows of the CI service's API.

pub mod client;
pub mod types;
