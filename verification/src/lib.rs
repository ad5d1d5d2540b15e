//! Resolving shared household expenses from budget transactions: choosing the
//! active budget, selecting and normalising the shared expenses, and the text of
//! the requests, rows and queries that record them.

pub mod text;
pub mod json;
pub mod request;
pub mod budget;
pub mod expenses;
pub mod store;
pub mod sheet;
pub mod run;
