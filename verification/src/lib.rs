//! A verified authorization-gated ledger for a single non-fungible token
//! collection: per-token ownership, per-owner balances, per-token and
//! per-owner operator approvals, a replay-protected signature/nonce
//! authorization gate, and the mint/burn/transfer transitions that keep
//! all of them consistent.

pub mod auth;
pub mod balance;
pub mod contract;
pub mod errors;
pub mod event;
pub mod identity;
pub mod laws;
pub mod metadata;
pub mod model;
pub mod owner;
pub mod store;
