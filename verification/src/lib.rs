//! A verified crowdfunding ledger.
//!
//! The ledger tracks a fundraising goal, the cumulative amount raised, one
//! cumulative record per donor, and the number of distinct donors, under a
//! single administrative identity.  The host environment that persists keyed
//! state and authenticates callers is modelled by an explicit [`contract::Store`]
//! handle and an injected authenticated caller identity; the state-transition
//! logic itself is verified against the mathematical model in [`model`], and
//! the ledger-wide laws are proved in [`laws`].

pub mod contract;
pub mod laws;
pub mod model;
pub mod types;
