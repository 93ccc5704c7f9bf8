//! Policy-based task scheduling.
//!
//! Mesh peers are scored by capability match, cost, load and locality,
//! and a task is assigned to the best candidate using configurable
//! weights. Every fraction in this crate is a fixed-point number in parts
//! per million (`types::PPM` is one whole unit) and every amount of money
//! is in micro-USD, so that the scoring rules can be stated and proved
//! exactly.

pub mod types;
pub mod policy;
pub mod text;
pub mod routes;
pub mod ext;
pub mod mcp_defs;
pub mod schema;
