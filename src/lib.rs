//! Matching of Solana transactions against user-defined monitors.
//!
//! A transaction's compiled instructions are resolved against its account
//! table and flattened (`resolve`), folded into a call tree (`nested`),
//! decoded by an ordered registry of program decoders (`decoder`), turned
//! into named parameters, and tested by monitor expressions (`expression`);
//! `filter` combines the results into match records. `laws` states the
//! properties that tie these stages together.

pub mod text;
pub mod number;
pub mod model;
pub mod resolve;
pub mod nested;
pub mod expression;
pub mod decoder;
pub mod jupiter;
pub mod monitor;
pub mod filter;
pub mod transport;
pub mod client;
pub mod laws;
