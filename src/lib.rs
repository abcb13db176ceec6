//! Turns bank-statement page text into typed transactions, totals and a
//! balance reconciliation, with every step stated and proved.

pub mod text;
pub mod error;
pub mod decimal;
pub mod date;
pub mod pattern;
pub mod extract;
pub mod transaction;
pub mod resolve;
pub mod statement;
pub mod reconcile;
