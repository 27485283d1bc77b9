//! An unattended treasury agent, as a library of decisions.
//!
//! The agent deploys a contract (or takes up the one it deployed before),
//! registers it once, and then watches an account balance: whenever a reading
//! falls below the configured floor it submits one swap and waits for its
//! outcome. Everything that decides lives here and is verified; everything
//! that waits (the chain, the balance service, the clock, the disk) is left to
//! the driver, which performs the [`control::Action`] it is handed and reports
//! back with a [`control::Event`].

pub mod address;
pub mod balance;
pub mod body;
pub mod bytecode;
pub mod control;
pub mod laws;
pub mod model;
pub mod retry;
pub mod trace;
