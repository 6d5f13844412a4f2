//! Deposit intake core for a credit-based web service.
//!
//! The crate covers deterministic per-account deposit-address derivation for
//! two chains, address lifecycle management with rotation and a per-account
//! cap, an idempotent crediting pipeline over an append-only ledger, the
//! chain-listener decision logic, and the pure credential helpers used by the
//! key-based login flow. Storage is modelled as an owned, invariant-carrying
//! value; processes around it (RPC polling, email, HTTP) stay outside.

pub mod api;
pub mod auth_service;
pub mod crypto;
pub mod error;
pub mod ledger;
pub mod listener;
pub mod models;
pub mod reconciler;
pub mod registry;
pub mod storage;
pub mod store;
pub mod stripe;
pub mod text;
pub mod user_auth;
pub mod wallet;
