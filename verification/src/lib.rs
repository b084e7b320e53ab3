//! A personal finance ledger: transactions, their categories and types,
//! filtering and the bookkeeping rules for adding and deleting entries.

pub mod dates;
pub mod ledger;
pub mod models;
pub mod reports;
pub mod requests;
mod sequences;
pub mod text;

