//! Beacon-node API paths, responses and routes, and validator-set management.

pub mod text;
pub mod types;
pub mod eth2;
pub mod http_api;
pub mod validators;
