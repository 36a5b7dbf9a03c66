//! Bounty settlement for recovered funds: a subscription registry of protected
//! entities, a deterministic three-way split of every deposit, an append-only
//! audit ledger, and the two-phase setup that links a token-issuing module.
//!
//! All state lives in [`state::Contract`], an explicit store object that every
//! operation receives. Operations either succeed and return the effects that
//! the host must dispatch, or fail with a [`ContractError`] and leave the store
//! exactly as it was.

pub mod config;
pub mod continuation;
pub mod error;
pub mod ledger;
pub mod msg;
pub mod order;
pub mod registry;
pub mod settlement;
pub mod state;

pub use crate::error::ContractError;
