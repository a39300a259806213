//! Group consolidation engine: manifest planning and the aggregate phase
//! that turns per-entity trial balances into consolidated statements.
pub mod dec;
pub mod text;
pub mod errors;
pub mod config;
pub mod date;
pub mod aggregate;
pub mod labels;
pub mod sorted_map;
pub mod manifest;
pub mod resolve;
