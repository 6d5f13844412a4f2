//! Request and response shapes of the service's HTTP surface. The transport
//! itself (routing, serialization, extraction) lives with the process shell;
//! these are the plain values it hands in and out.

pub mod auth;
pub mod embed;
pub mod payments;
pub mod sessions;
pub mod stack;
pub mod vault;
