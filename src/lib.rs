//! Envelope-budgeting backend core: identity and sessions, an ownership-scoped
//! ledger of budgets, accounts, categories and transactions, category
//! assignments, and the monthly envelope projection.
pub mod error;
pub mod money;
pub mod text;
pub mod calendar;
pub mod auth;
pub mod models;
pub mod tables;
pub mod ledger;
pub mod books;
pub mod transactions;
pub mod projection;
pub mod assignments;
pub mod seed;
pub mod laws;
