//! The aggregate phase: per-account totals, eliminations, overlays and
//! the consolidated statements.
pub mod accounts;
pub mod driver;
pub mod equity_method;
pub mod fs;
pub mod journal;
pub mod je_network;
pub mod ic_plan;
pub mod ic_matcher;
pub mod coverage_report;
pub mod cgu_impairment;
pub mod elimination;
pub mod nci;
pub mod opening_balance;
pub mod post_elim;
pub mod pre_elim;
pub mod tb_loader;
pub mod translation;
