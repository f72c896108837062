//! A token-vesting and refund ledger: per-investor stable-asset deposits, an
//! admin-maintained allocation and refund registry, and a claim engine that
//! releases tokens linearly over time and returns each refund once.
//!
//! The ledger is a pure state machine: every operation takes the persisted
//! state, the caller, the clock, and the attached payment as plain values,
//! and returns the outbound transfer instructions and event tags, or an
//! error that leaves the state untouched. Each operation carries a contract
//! saying exactly what it returns and changes; `laws` proves the properties
//! that relate operations to one another.

pub mod contract;
pub mod error;
pub mod laws;
pub mod msg;
pub mod numeral;
pub mod order;
pub mod state;
pub mod vesting;
