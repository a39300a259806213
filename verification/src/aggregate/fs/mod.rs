//! Consolidated financial statements built from the post-elimination
//! trial balance.
pub mod account_names;
pub mod income_statement;
pub mod balance_sheet;
pub mod cash_flow;
pub mod consolidation_schedule;
pub mod equity_changes;
pub mod notes;
