//! Transactional core of a constant-product AMM with a flash-loan facility.
//!
//! Every function here is pure: account data, balances, the chain clock and
//! the enclosing transaction's instructions are handed in as plain values,
//! and the decisions and amounts come back as plain values.
pub mod admin;
pub mod bytes;
pub mod curve;
pub mod error;
pub mod flash;
pub mod pool;
pub mod state;
