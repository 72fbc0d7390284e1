//! A minimal asset-transfer ledger.
//!
//! The library tracks per-address balances, applies transfer requests
//! atomically against a ledger store, and answers balance and history
//! queries. The transfer engine, the in-memory ledger store with its
//! transaction semantics, and the queries are verified; process edges
//! (HTTP, the message broker, the relational store) live outside the
//! library and drive it through plain values.

pub mod domain;
pub mod engine;
pub mod laws;
pub mod queue;
pub mod steps;
pub mod store;
