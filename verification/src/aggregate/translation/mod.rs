//! IAS 21 translation of entity trial balances into the presentation
//! currency, the cumulative translation adjustment, and IAS 29
//! restatement for hyperinflationary economies.
pub mod classify;
pub mod cta;
pub mod restatement;
pub mod translate;
pub mod worksheet;
