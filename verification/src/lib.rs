//! A verified non-fungible-token ownership ledger.
//!
//! The ledger maps token identifiers to owning accounts, tracks per-account
//! balances, and manages a two-tier delegation system (per-token approvals
//! and blanket operator approvals) that authorizes transfers on an owner's
//! behalf. Every mutation is routed through a single update path that keeps
//! the global invariants: one owner per token, balances consistent with
//! ownership, and stale approvals cleared on every ownership change.

pub mod account;
pub mod token;
pub mod errors;
pub mod events;
pub mod store;
pub mod state;
pub mod dec;
pub mod ledger;
pub mod laws;
