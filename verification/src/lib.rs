//! Risk-management core of an automated market-making strategy.
//!
//! Pure, deterministic fixed-point decimal functions that decide how much
//! capital a quoting engine may commit to each side of an order book and how
//! tightly the outer edges of its quoted price ladder must be bounded.

pub mod decimal;
pub mod msg;
pub mod risk_management;
pub mod state;
pub mod tokenfactory;
