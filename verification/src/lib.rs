//! Searches the space of BIP-39 seed phrases for wallets whose derived
//! address satisfies a configurable matching rule (prefix, suffix, or
//! dictionary-based pattern), with a bounded-concurrency worker pool and a
//! cooperative cancellation protocol.
pub mod cli;
pub mod generator;
pub mod consumer;
pub mod selector;
pub mod wallet;
