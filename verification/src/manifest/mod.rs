//! Manifest planning: the pure planning steps that turn a group
//! configuration into the manifest the generation phase runs from.
pub mod coa_master;
pub mod builder;
pub mod fx_master;
pub mod expansion;
pub mod shard_plan;
pub mod cgu_plan;
pub mod tax_plan;
pub mod seeds;
pub mod ic_expansion;
pub mod audit_plan;
